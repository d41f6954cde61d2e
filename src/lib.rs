//! Navigation state engine of a terminal directory browser: the current
//! directory, its entries narrowed by a filter, a selection that always stays
//! within the displayed list, the scroll offset that keeps it in view, and the
//! header breadcrumb that maps clicks back to parent directories.

pub mod path;
pub mod text;
pub mod filter;
pub mod breadcrumb;
pub mod nav;
pub mod event;
