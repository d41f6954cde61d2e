//! The navigation state: current directory, entries, filter, selection, scroll.
use vstd::prelude::*;
use crate::path::{DirPath, names, valid_segment, is_valid_segment, path_str};
use crate::breadcrumb::{click_depth, click_offset, clicked_path, wrap, wrap_lines};
use crate::filter::{lemma_filtered_no_duplicates, filtered, filter_text, parent_entry, subdirs_view, files_view, sorted, sort_names, filter_view, lemma_filtered_len};

verus! {

/// What a directory scan handed over: subdirectories, files and resolved
/// links to files, or the description of the error that stopped it.
pub type Listing = Result<(Vec<String>, Vec<String>, Vec<String>), String>;

/// The entries of a listing fit the machine's lengths.
pub open spec fn listing_fits(listing: Listing) -> bool {
    match listing {
        Ok((d, f, l)) => d@.len() + f@.len() + l@.len() < usize::MAX,
        Err(_) => true,
    }
}

/// The subdirectory names a listing gives: the error text alone on failure.
pub open spec fn listed_dirs(listing: Listing) -> Seq<Seq<char>> {
    match listing {
        Ok((d, _, _)) => names(d@),
        Err(e) => seq![e@],
    }
}

/// The file names a listing gives: files and links together; none on failure.
pub open spec fn listed_files(listing: Listing) -> Seq<Seq<char>> {
    match listing {
        Ok((_, f, l)) => names(f@) + names(l@),
        Err(_) => Seq::empty(),
    }
}

/// A selection is within the list, and absent exactly when the list is empty.
pub open spec fn selection_ok(selected: Option<usize>, len: int) -> bool {
    if len == 0 {
        selected is None
    } else {
        selected matches Some(i) && i < len
    }
}

/// The selection after a rebuild: kept but clamped to the last entry, the
/// first entry where there was none, and none for an empty list.
pub open spec fn clamped(selected: Option<usize>, len: int) -> Option<usize> {
    if len == 0 {
        None
    } else {
        match selected {
            Some(i) => if i < len { Some(i) } else { Some((len - 1) as usize) },
            None => Some(0),
        }
    }
}

/// The smallest scroll offset that keeps the selected row in a viewport of
/// `height` rows.
pub open spec fn scroll_offset(selected: Option<usize>, height: int) -> int {
    match selected {
        Some(s) => if s >= height { s - height + 1 } else { 0 },
        None => 0,
    }
}

/// The selection after a move down: one further, the last entry staying.
pub open spec fn moved_down(selected: Option<usize>, len: int) -> Option<usize> {
    match selected {
        Some(s) => if s + 1 < len { Some((s + 1) as usize) } else { Some(s) },
        None => None,
    }
}

/// The selection after a move up: one back, the first entry staying.
pub open spec fn moved_up(selected: Option<usize>) -> Option<usize> {
    match selected {
        Some(s) => if s > 0 { Some((s - 1) as usize) } else { Some(s) },
        None => None,
    }
}

/// The selection after Home: the first file from below it, else the first entry.
pub open spec fn homed(selected: Option<usize>, n_subdirs: int) -> Option<usize> {
    match selected {
        Some(s) => if s > n_subdirs { Some(n_subdirs as usize) } else { Some(0) },
        None => None,
    }
}

/// The selection after End: the last subdirectory from above it, else the last entry.
pub open spec fn ended(selected: Option<usize>, n_subdirs: int, len: int) -> Option<usize> {
    match selected {
        Some(s) => if n_subdirs > 0 && s < n_subdirs - 1 { Some((n_subdirs - 1) as usize) } else { Some((len - 1) as usize) },
        None => None,
    }
}

/// The first position of `x` in `s` from `j` on, or -1.
pub open spec fn index_from(s: Seq<Seq<char>>, x: Seq<char>, j: int) -> int
    decreases s.len() - j,
{
    if j < 0 || j >= s.len() {
        -1
    } else if s[j] == x {
        j
    } else {
        index_from(s, x, j + 1)
    }
}

/// The first position of `x` in `s`, or -1.
pub open spec fn first_index(s: Seq<Seq<char>>, x: Seq<char>) -> int {
    index_from(s, x, 0)
}

/// The selection after entering a directory: the directory just left where
/// it is listed, else the first entry; none for an empty list.
pub open spec fn restored(subdirs: Seq<Seq<char>>, len: int, came_from: Option<Seq<char>>) -> Option<usize> {
    if len == 0 {
        None
    } else {
        match came_from {
            Some(n) => if first_index(subdirs, n) >= 0 { Some(first_index(subdirs, n) as usize) } else { Some(0) },
            None => Some(0),
        }
    }
}

/// The text of an optional name.
pub open spec fn name_opt(n: Option<String>) -> Option<Seq<char>> {
    match n {
        Some(s) => Some(s@),
        None => None,
    }
}

/// The filter after one character is taken off: none once it is empty.
pub open spec fn popped_filter(filter: Option<String>) -> Option<Seq<char>> {
    match filter {
        Some(f) => if f@.len() <= 1 { None } else { Some(f@.drop_last()) },
        None => None,
    }
}

/// The shell command that changes into `dir`: `cd "<path>"`.
pub open spec fn command_of(dir: Seq<Seq<char>>) -> Seq<char> {
    seq!['c', 'd', ' ', '"'] + path_str(dir) + seq!['"']
}

/// A directory to move into, and the name of the one left when it is the parent.
pub struct DirChange {
    pub target: DirPath,
    pub came_from: Option<String>,
}

/// Relies on std's `String::push`: the character is appended at the end.
#[verifier::external_body]
fn push_char(s: &mut String, c: char)
    ensures
        final(s)@ == old(s)@.push(c),
{
    s.push(c)
}

proof fn lemma_index_from_bounds(s: Seq<Seq<char>>, x: Seq<char>, j: int)
    requires
        0 <= j,
    ensures
        index_from(s, x, j) >= 0 ==> j <= index_from(s, x, j) < s.len() && s[index_from(s, x, j)] == x,
    decreases s.len() - j,
{
    if j < s.len() && s[j] != x {
        lemma_index_from_bounds(s, x, j + 1);
    }
}

proof fn lemma_index_from_first(s: Seq<Seq<char>>, x: Seq<char>, j: int, i: int)
    requires
        0 <= j <= i < s.len(),
        s[i] == x,
        forall|k: int| j <= k < i ==> s[k] != x,
    ensures
        index_from(s, x, j) == i,
    decreases i - j,
{
    if j < i {
        lemma_index_from_first(s, x, j + 1, i);
    }
}

/// The scroll offset keeps the selected row inside a viewport of positive
/// height, and is no larger than any offset `o` that also would.
pub proof fn lemma_scroll_contains(selected: usize, height: int, o: int)
    requires
        height > 0,
    ensures
        0 <= scroll_offset(Some(selected), height) <= selected < scroll_offset(Some(selected), height) + height,
        0 <= o <= selected < o + height ==> scroll_offset(Some(selected), height) <= o,
{
}

/// The position of the first entry whose text is `x`, or -1.
fn find_name(v: &Vec<String>, x: &String) -> (r: Option<usize>)
    ensures
        r matches Some(j) ==> j as int == first_index(names(v@), x@),
        r is None ==> first_index(names(v@), x@) < 0,
{
    let mut j: usize = 0;
    while j < v.len()
        invariant
            j <= v@.len(),
            first_index(names(v@), x@) == index_from(names(v@), x@, j as int),
        decreases v@.len() - j,
    {
        if v[j] == *x {
            return Some(j);
        }
        j = j + 1;
    }
    None
}

/// The state of the navigator.
pub struct App {
    pub window_width: u16,
    pub selected: Option<usize>,
    pub top_col: usize,
    pub offset: usize,
    pub current_dir: DirPath,
    pub all_subdirs: Vec<String>,
    pub subdirs: Vec<String>,
    pub all_files: Vec<String>,
    pub files: Vec<String>,
    pub list_length: usize,
    pub chunk_height: usize,
    pub show_hidden: bool,
    pub filter: Option<String>,
}

impl App {
    /// The entries of the directory fit the machine's lengths.
    pub open spec fn entries_fit(&self) -> bool {
        self.all_subdirs@.len() + self.all_files@.len() < usize::MAX
    }

    /// The displayed lists are those derived from the entries, the filter and
    /// the hidden-names switch.
    pub open spec fn view_ok(&self) -> bool {
        &&& names(self.subdirs@) == subdirs_view(names(self.all_subdirs@), filter_text(self.filter), self.show_hidden, self.current_dir@.len() > 0)
        &&& names(self.files@) == files_view(names(self.all_files@), filter_text(self.filter), self.show_hidden)
        &&& self.list_length == self.subdirs@.len() + self.files@.len()
    }

    /// The state is consistent.
    pub open spec fn wf(&self) -> bool {
        &&& self.current_dir.wf()
        &&& self.entries_fit()
        &&& self.view_ok()
        &&& selection_ok(self.selected, self.list_length as int)
    }

    /// A navigator in `current_dir`, before its first scan.
    pub fn new(current_dir: DirPath) -> (r: App)
        ensures
            r.current_dir == current_dir,
            r.all_subdirs@.len() == 0,
            r.all_files@.len() == 0,
            r.subdirs@.len() == 0,
            r.files@.len() == 0,
            r.list_length == 0,
            r.selected is None,
            r.filter is None,
            !r.show_hidden,
            r.offset == 0,
            r.window_width == 0,
            r.chunk_height == 0,
            r.top_col == 0,
    {
        App {
            window_width: 0,
            selected: None,
            top_col: 0,
            offset: 0,
            current_dir,
            all_subdirs: Vec::new(),
            subdirs: Vec::new(),
            all_files: Vec::new(),
            files: Vec::new(),
            list_length: 0,
            chunk_height: 0,
            show_hidden: false,
            filter: None,
        }
    }

    /// Takes in the entries of the current directory as a scan found them,
    /// sorted; a failed scan leaves one entry holding the error text.
    pub fn update_from_filesystem(&mut self, listing: Listing)
        requires
            listing_fits(listing),
        ensures
            sorted(names(final(self).all_subdirs@)),
            sorted(names(final(self).all_files@)),
            names(final(self).all_subdirs@).to_multiset() == listed_dirs(listing).to_multiset(),
            names(final(self).all_files@).to_multiset() == listed_files(listing).to_multiset(),
            final(self).entries_fit(),
            final(self).current_dir == old(self).current_dir,
            final(self).filter == old(self).filter,
            final(self).show_hidden == old(self).show_hidden,
            final(self).selected == old(self).selected,
            final(self).window_width == old(self).window_width,
            final(self).chunk_height == old(self).chunk_height,
            final(self).top_col == old(self).top_col,
    {
        match listing {
            Ok((dirs, files, links)) => {
                let ghost d0 = dirs@;
                let ghost f0 = names(files@);
                let ghost l0 = names(links@);
                let mut all_files = files;
                let mut more = links;
                all_files.append(&mut more);
                assert(names(all_files@) =~= f0 + l0);
                let d = sort_names(dirs);
                let f = sort_names(all_files);
                proof {
                    names(d@).to_multiset_ensures();
                    names(d0).to_multiset_ensures();
                    names(f@).to_multiset_ensures();
                    (f0 + l0).to_multiset_ensures();
                }
                self.all_subdirs = d;
                self.all_files = f;
            },
            Err(e) => {
                let ghost e0 = e@;
                let mut d: Vec<String> = Vec::new();
                d.push(e);
                assert(names(d@) =~= seq![e0]);
                assert(sorted(names(d@)));
                self.all_subdirs = d;
                self.all_files = Vec::new();
                assert(names(self.all_files@) =~= Seq::<Seq<char>>::empty());
                assert(sorted(names(self.all_files@)));
            },
        }
    }

    /// Derives the displayed lists from the entries, the filter and the
    /// hidden-names switch, and clamps the selection to the new list. The
    /// selection keeps its index, not the name it pointed at.
    pub fn build_displayed_items(&mut self)
        requires
            old(self).current_dir.wf(),
            old(self).entries_fit(),
        ensures
            final(self).wf(),
            final(self).selected == clamped(old(self).selected, final(self).list_length as int),
            final(self).current_dir == old(self).current_dir,
            final(self).all_subdirs == old(self).all_subdirs,
            final(self).all_files == old(self).all_files,
            final(self).filter == old(self).filter,
            final(self).show_hidden == old(self).show_hidden,
            final(self).window_width == old(self).window_width,
            final(self).chunk_height == old(self).chunk_height,
            final(self).top_col == old(self).top_col,
    {
        let has_parent = self.current_dir.has_parent();
        let (subdirs, files) = filter_view(&self.all_subdirs, &self.all_files, &self.filter, self.show_hidden, has_parent);
        proof {
            lemma_filtered_len(names(self.all_subdirs@), filter_text(self.filter), self.show_hidden);
            lemma_filtered_len(names(self.all_files@), filter_text(self.filter), self.show_hidden);
            assert(names(subdirs@).len() == subdirs@.len());
            assert(names(files@).len() == files@.len());
        }
        self.subdirs = subdirs;
        self.files = files;
        let len = self.subdirs.len() + self.files.len();
        self.list_length = len;
        self.selected = if len == 0 {
            None
        } else {
            match self.selected {
                Some(s) => if s < len { Some(s) } else { Some(len - 1) },
                None => Some(0),
            }
        };
    }

    /// Everything but the selection is as in `other`.
    pub open spec fn same_but_selection(&self, other: &App) -> bool {
        &&& self.window_width == other.window_width
        &&& self.top_col == other.top_col
        &&& self.offset == other.offset
        &&& self.current_dir == other.current_dir
        &&& self.all_subdirs == other.all_subdirs
        &&& self.subdirs == other.subdirs
        &&& self.all_files == other.all_files
        &&& self.files == other.files
        &&& self.list_length == other.list_length
        &&& self.chunk_height == other.chunk_height
        &&& self.show_hidden == other.show_hidden
        &&& self.filter == other.filter
    }

    /// Moves the selection one entry down, staying on the last one.
    pub fn move_down(&mut self)
        requires
            old(self).wf(),
        ensures
            final(self).wf(),
            final(self).same_but_selection(old(self)),
            final(self).selected == moved_down(old(self).selected, old(self).list_length as int),
    {
        if let Some(s) = self.selected {
            if s + 1 < self.list_length {
                self.selected = Some(s + 1);
            }
        }
    }

    /// Moves the selection one entry up, staying on the first one.
    pub fn move_up(&mut self)
        requires
            old(self).wf(),
        ensures
            final(self).wf(),
            final(self).same_but_selection(old(self)),
            final(self).selected == moved_up(old(self).selected),
    {
        if let Some(s) = self.selected {
            if s > 0 {
                self.selected = Some(s - 1);
            }
        }
    }

    /// Jumps to the first file when below it, else to the first entry.
    pub fn move_home(&mut self)
        requires
            old(self).wf(),
        ensures
            final(self).wf(),
            final(self).same_but_selection(old(self)),
            final(self).selected == homed(old(self).selected, old(self).subdirs@.len() as int),
    {
        if let Some(s) = self.selected {
            if s > self.subdirs.len() {
                self.selected = Some(self.subdirs.len());
            } else {
                self.selected = Some(0);
            }
        }
    }

    /// Jumps to the last subdirectory when above it, else to the last entry.
    pub fn move_end(&mut self)
        requires
            old(self).wf(),
        ensures
            final(self).wf(),
            final(self).same_but_selection(old(self)),
            final(self).selected == ended(old(self).selected, old(self).subdirs@.len() as int, old(self).list_length as int),
    {
        if let Some(s) = self.selected {
            let n = self.subdirs.len();
            if n > 0 && s < n - 1 {
                self.selected = Some(n - 1);
            } else {
                self.selected = Some(self.list_length - 1);
            }
        }
    }

    /// The rebuild after a change of the filter or the hidden-names switch
    /// left the directory and its entries alone.
    pub open spec fn rebuilt_from(&self, old: &App) -> bool {
        &&& self.wf()
        &&& self.selected == clamped(old.selected, self.list_length as int)
        &&& self.current_dir == old.current_dir
        &&& self.all_subdirs == old.all_subdirs
        &&& self.all_files == old.all_files
        &&& self.window_width == old.window_width
        &&& self.chunk_height == old.chunk_height
        &&& self.top_col == old.top_col
    }

    /// Shows or hides hidden names.
    pub fn toggle_hidden(&mut self)
        requires
            old(self).wf(),
        ensures
            final(self).rebuilt_from(old(self)),
            final(self).show_hidden == !old(self).show_hidden,
            final(self).filter == old(self).filter,
    {
        self.show_hidden = !self.show_hidden;
        self.build_displayed_items();
    }

    /// Adds a character to the filter, starting one if there is none.
    pub fn push_filter(&mut self, c: char)
        requires
            old(self).wf(),
        ensures
            final(self).rebuilt_from(old(self)),
            final(self).show_hidden == old(self).show_hidden,
            name_opt(final(self).filter) == Some(filter_text(old(self).filter).push(c)),
    {
        let mut f = match self.filter.take() {
            Some(f) => f,
            None => String::new(),
        };
        push_char(&mut f, c);
        self.filter = Some(f);
        self.build_displayed_items();
    }

    /// Takes the last character off the filter, dropping the filter once it
    /// is empty; without a filter nothing changes.
    pub fn pop_filter(&mut self)
        requires
            old(self).wf(),
        ensures
            old(self).filter is None ==> *final(self) == *old(self),
            old(self).filter is Some ==> final(self).rebuilt_from(old(self)),
            final(self).show_hidden == old(self).show_hidden,
            name_opt(final(self).filter) == popped_filter(old(self).filter),
    {
        if self.filter.is_none() {
            return;
        }
        let f = self.filter.take().unwrap();
        let t = f.as_str();
        let n = t.unicode_len();
        if n <= 1 {
            self.filter = None;
        } else {
            let g = String::from_str(t.substring_char(0, n - 1));
            assert(g@ =~= f@.drop_last());
            self.filter = Some(g);
        }
        self.build_displayed_items();
    }

    /// Drops the filter.
    pub fn clear_filter(&mut self)
        requires
            old(self).wf(),
        ensures
            final(self).rebuilt_from(old(self)),
            final(self).show_hidden == old(self).show_hidden,
            final(self).filter is None,
    {
        self.filter = None;
        self.build_displayed_items();
    }

    /// Sets the scroll offset to the smallest that keeps the selection in view.
    pub fn refresh_list_offset(&mut self)
        requires
            old(self).wf(),
        ensures
            final(self).offset as int == scroll_offset(old(self).selected, old(self).chunk_height as int),
            final(self).wf(),
            final(self).selected == old(self).selected,
            final(self).list_length == old(self).list_length,
            final(self).chunk_height == old(self).chunk_height,
            final(self).top_col == old(self).top_col,
            final(self).window_width == old(self).window_width,
            final(self).current_dir == old(self).current_dir,
            final(self).filter == old(self).filter,
    {
        self.offset = if let Some(s) = self.selected {
            if s >= self.chunk_height {
                s - self.chunk_height + 1
            } else {
                0
            }
        } else {
            0
        };
    }

    /// Records the viewport geometry: header width, first list row, list height.
    pub fn set_viewport(&mut self, window_width: u16, top_col: usize, chunk_height: usize)
        requires
            old(self).wf(),
        ensures
            final(self).wf(),
            final(self).window_width == window_width,
            final(self).top_col == top_col,
            final(self).chunk_height == chunk_height,
            final(self).selected == old(self).selected,
            final(self).offset == old(self).offset,
            final(self).current_dir == old(self).current_dir,
            final(self).all_subdirs == old(self).all_subdirs,
            final(self).all_files == old(self).all_files,
            final(self).subdirs == old(self).subdirs,
            final(self).files == old(self).files,
            final(self).list_length == old(self).list_length,
            final(self).show_hidden == old(self).show_hidden,
            final(self).filter == old(self).filter,
    {
        self.window_width = window_width;
        self.top_col = top_col;
        self.chunk_height = chunk_height;
    }

    /// Where activating the selection leads: the parent for the parent entry,
    /// the subdirectory for a subdirectory entry; nowhere for a file, for no
    /// selection, or for an entry that cannot be a path component.
    pub open spec fn activation(&self) -> Option<(Seq<Seq<char>>, Option<Seq<char>>)> {
        match self.selected {
            Some(i) => if i < self.subdirs@.len() {
                let name = self.subdirs@[i as int]@;
                let dir = self.current_dir@;
                if name == parent_entry() && dir.len() > 0 {
                    Some((dir.drop_last(), Some(dir.last())))
                } else if valid_segment(name) {
                    Some((dir.push(name), None))
                } else {
                    None
                }
            } else {
                None
            },
            None => None,
        }
    }

    /// The directory change that activating the selection asks for.
    pub fn change_target(&self) -> (r: Option<DirChange>)
        requires
            self.wf(),
        ensures
            self.activation() is None ==> r is None,
            self.activation() matches Some((t, c)) ==> (r matches Some(m) && m.target@ == t && m.target.wf() && name_opt(m.came_from) == c),
    {
        let i = match self.selected {
            Some(i) => i,
            None => return None,
        };
        if i >= self.subdirs.len() {
            return None;
        }
        let name = &self.subdirs[i];
        let up = String::from_str("../");
        proof {
            reveal_strlit("../");
        }
        assert(up@ =~= parent_entry());
        if *name == up && self.current_dir.has_parent() {
            let came_from = self.current_dir.file_name();
            Some(DirChange { target: self.current_dir.parent(), came_from })
        } else if is_valid_segment(name) {
            Some(DirChange { target: self.current_dir.join(name), came_from: None })
        } else {
            None
        }
    }

    /// The entries were taken from `listing`, sorted.
    pub open spec fn holds_listing(&self, listing: Listing) -> bool {
        &&& sorted(names(self.all_subdirs@))
        &&& sorted(names(self.all_files@))
        &&& names(self.all_subdirs@).to_multiset() == listed_dirs(listing).to_multiset()
        &&& names(self.all_files@).to_multiset() == listed_files(listing).to_multiset()
    }

    /// The state after entering `target` with the scan `listing` of it.
    pub open spec fn entered(&self, old: &App, target: Seq<Seq<char>>, came_from: Option<Seq<char>>, listing: Listing) -> bool {
        &&& self.wf()
        &&& self.current_dir@ == target
        &&& self.filter is None
        &&& self.show_hidden == old.show_hidden
        &&& self.holds_listing(listing)
        &&& self.selected == restored(names(self.subdirs@), self.list_length as int, came_from)
        &&& self.window_width == old.window_width
        &&& self.chunk_height == old.chunk_height
        &&& self.top_col == old.top_col
    }

    /// Moves into `mv.target`, whose scan is `listing`: the filter is dropped,
    /// the view rebuilt, and the directory just left selected where listed.
    pub fn enter_dir(&mut self, mv: DirChange, listing: Listing)
        requires
            mv.target.wf(),
            listing_fits(listing),
        ensures
            final(self).entered(old(self), mv.target@, name_opt(mv.came_from), listing),
    {
        self.current_dir = mv.target;
        self.filter = None;
        self.update_from_filesystem(listing);
        self.build_displayed_items();
        if self.list_length > 0 {
            let mut sel: usize = 0;
            if let Some(name) = &mv.came_from {
                let k = find_name(&self.subdirs, name);
                if let Some(j) = k {
                    proof {
                        lemma_index_from_bounds(names(self.subdirs@), name@, 0);
                    }
                    sel = j;
                }
            }
            self.selected = Some(sel);
        }
    }

    /// Activates the selection, `listing` being the scan of the directory it
    /// leads to; a file, no selection or an entry that cannot be a path
    /// component leaves the state as it is.
    pub fn change_dir(&mut self, listing: Listing)
        requires
            old(self).wf(),
            listing_fits(listing),
        ensures
            old(self).activation() is None ==> *final(self) == *old(self),
            old(self).activation() matches Some((t, c)) ==> final(self).entered(old(self), t, c, listing),
    {
        if let Some(mv) = self.change_target() {
            self.enter_dir(mv, listing);
        }
    }

    /// The directory a click on header cell `(x, y)` leads to.
    pub fn breadcrumb_target(&self, x: u16, y: u16) -> (r: DirPath)
        requires
            self.current_dir.wf(),
            x >= 1,
            y >= 1,
        ensures
            r@ == self.current_dir@.take(click_depth(self.current_dir@, click_offset(x as int, y as int, self.window_width as int))),
            r.wf(),
    {
        clicked_path(&self.current_dir, self.window_width, x, y)
    }

    /// Moves to the directory whose header cell `(x, y)` was clicked,
    /// `listing` being the scan of that directory.
    pub fn breadcrumb_chdir(&mut self, x: u16, y: u16, listing: Listing)
        requires
            old(self).current_dir.wf(),
            x >= 1,
            y >= 1,
            listing_fits(listing),
        ensures
            final(self).entered(
                old(self),
                old(self).current_dir@.take(click_depth(old(self).current_dir@, click_offset(x as int, y as int, old(self).window_width as int))),
                None,
                listing,
            ),
    {
        let target = self.breadcrumb_target(x, y);
        self.enter_dir(DirChange { target, came_from: None }, listing);
    }

    /// The state and result after a click at cell `(x, y)` from `old`: below
    /// the header row `top_col` the row clicked is selected, when it holds an
    /// entry, and the result is the change that activating it asks for; on
    /// the header the result is the change to the clicked directory.
    pub open spec fn clicked(&self, old: &App, x: u16, y: u16, r: Option<DirChange>) -> bool {
        &&& self.wf()
        &&& self.same_but_selection(old)
        &&& ((y as int) > old.top_col ==> {
            let row = old.offset + y - old.top_col - 1;
            &&& (row < old.list_length ==> self.selected == Some(row as usize))
            &&& (row >= old.list_length ==> self.selected == old.selected && r is None)
            &&& (self.activation() is None ==> r is None)
            &&& (row < old.list_length ==> (self.activation() matches Some((t, c)) ==> (r matches Some(m)
                && m.target@ == t && m.target.wf() && name_opt(m.came_from) == c)))
        })
        &&& ((y as int) <= old.top_col ==> self.selected == old.selected)
        &&& ((y as int) <= old.top_col && x >= 1 && y >= 1 ==> (r matches Some(m) && m.came_from is None
            && m.target.wf() && m.target@ == old.current_dir@.take(
            click_depth(old.current_dir@, click_offset(x as int, y as int, old.window_width as int)),
        )))
        &&& ((y as int) <= old.top_col && (x == 0 || y == 0) ==> r is None)
    }

    /// A mouse click at cell `(x, y)`. Below the header row `top_col` it
    /// selects the row clicked, when that row holds an entry, and returns the
    /// directory change that activating it asks for; on the header it returns
    /// the change to the clicked directory.
    pub fn click(&mut self, x: u16, y: u16) -> (r: Option<DirChange>)
        requires
            old(self).wf(),
        ensures
            final(self).clicked(old(self), x, y, r),
    {
        let yy = y as usize;
        if yy > self.top_col {
            let d = yy - self.top_col - 1;
            if d < self.list_length && self.offset < self.list_length - d {
                self.selected = Some(self.offset + d);
                self.change_target()
            } else {
                None
            }
        } else if x >= 1 && y >= 1 {
            Some(DirChange { target: self.breadcrumb_target(x, y), came_from: None })
        } else {
            None
        }
    }

    /// The text of the current directory.
    pub fn _current_path_as_string(&self) -> (r: String)
        ensures
            r@ == path_str(self.current_dir@),
    {
        self.current_dir.to_text()
    }

    /// The length in characters of the current directory's text.
    pub fn _breadcrumb_length(&self) -> (r: usize)
        ensures
            r == path_str(self.current_dir@).len(),
    {
        self.current_dir.to_text().as_str().unicode_len()
    }

    /// The current directory's text wrapped at the window width.
    pub fn breadcrumb_lines(&self) -> (r: Vec<String>)
        ensures
            names(r@) == wrap(path_str(self.current_dir@), self.window_width as nat),
    {
        let t = self.current_dir.to_text();
        wrap_lines(&t, self.window_width)
    }

    /// The header: the filter text while filtering, else the breadcrumb lines.
    pub fn header_lines(&self) -> (r: Vec<String>)
        ensures
            self.filter matches Some(f) ==> names(r@) == seq![seq!['F', 'i', 'l', 't', 'e', 'r', ':', ' '] + f@],
            self.filter is None ==> names(r@) == wrap(path_str(self.current_dir@), self.window_width as nat),
    {
        match &self.filter {
            Some(f) => {
                let label = "Filter: ";
                proof {
                    reveal_strlit("Filter: ");
                }
                assert(label@ =~= seq!['F', 'i', 'l', 't', 'e', 'r', ':', ' ']);
                let line = String::from_str(label).concat(f.as_str());
                let mut v: Vec<String> = Vec::new();
                v.push(line);
                assert(names(v@) =~= seq![seq!['F', 'i', 'l', 't', 'e', 'r', ':', ' '] + f@]);
                v
            },
            None => self.breadcrumb_lines(),
        }
    }

    /// The shell command that changes into the current directory.
    pub fn command_text(&self) -> (r: String)
        ensures
            r@ == command_of(self.current_dir@),
    {
        let open = "cd \"";
        let close = "\"";
        proof {
            reveal_strlit("cd \"");
            reveal_strlit("\"");
        }
        assert(open@ =~= seq!['c', 'd', ' ', '"']);
        assert(close@ =~= seq!['"']);
        String::from_str(open).concat(self.current_dir.to_text().as_str()).concat(close)
    }
}

/// Entering a subdirectory from a directory without a filter, going back
/// up, and finding the directory's entries as before, selects again the entry
/// of that subdirectory: activating it leads into the same subdirectory.
pub proof fn lemma_parent_round_trip(a: App, b: App, c: App, t: Seq<Seq<char>>, l1: Listing, l2: Listing)
    requires
        a.wf(),
        a.filter is None,
        names(a.all_subdirs@).no_duplicates(),
        a.activation() == Some((t, None::<Seq<char>>)),
        b.entered(&a, t, None, l1),
        b.activation() is Some,
        c.entered(&b, b.activation()->Some_0.0, b.activation()->Some_0.1, l2),
        names(c.all_subdirs@) == names(a.all_subdirs@),
        names(c.all_files@) == names(a.all_files@),
    ensures
        c.current_dir@ == a.current_dir@,
        c.selected == a.selected,
        c.activation() == a.activation(),
{
    let i = a.selected->Some_0 as int;
    let d = a.current_dir@;
    let name = a.subdirs@[i]@;
    assert(name != parent_entry()) by {
        if name == parent_entry() {
            assert(name[2] == '/');
        }
    }
    assert(t == d.push(name));
    assert(b.current_dir@.len() > 0);
    assert(names(b.subdirs@)[0] == parent_entry());
    assert(b.selected == Some(0usize));
    assert(b.subdirs@[0]@ == parent_entry());
    assert(t.drop_last() =~= d);
    assert(b.activation() == Some((d, Some(name))));
    let v = names(a.subdirs@);
    assert(names(c.subdirs@) == v);
    assert(names(c.files@) == names(a.files@));
    let f = filtered(names(a.all_subdirs@), Seq::empty(), a.show_hidden);
    lemma_filtered_no_duplicates(names(a.all_subdirs@), Seq::empty(), a.show_hidden);
    assert forall|k: int| 0 <= k < i implies v[k] != name by {
        if d.len() > 0 {
            if k > 0 {
                assert(v[k] == f[k - 1] && v[i] == f[i - 1]);
            }
        } else {
            assert(v[k] == f[k] && v[i] == f[i]);
        }
    }
    lemma_index_from_first(v, name, 0, i);
    assert(c.subdirs@.len() == names(c.subdirs@).len());
    assert(c.subdirs@[i]@ == names(c.subdirs@)[i]);
    assert(a.subdirs@[i]@ == v[i]);
}

} // verus!
