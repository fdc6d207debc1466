use vstd::prelude::*;
use vstd::string::StringExecFns;
use crate::text::{at_boundary, char_index, chars_before_byte, chars_of, string_from_chars, utf8_len, utf8_longer_than};

verus! {

/// An entry of the main menu: its number, its name and its category.
pub struct MenuOption {
    pub id: u32,
    pub name: String,
    pub category: String,
}

/// A menu entry as a value: (number, name, category).
pub type OptionView = (u32, Seq<char>, Seq<char>);

/// A group of menu entries under a heading.
pub struct MenuCategory {
    pub name: String,
    pub options: Vec<MenuOption>,
}

/// A menu group as a value: its heading and its entries.
pub type CategoryView = (Seq<char>, Seq<OptionView>);

/// The view of a menu entry.
pub open spec fn option_view(o: MenuOption) -> OptionView {
    (o.id, o.name@, o.category@)
}

/// The views of menu entries.
pub open spec fn option_views(v: Seq<MenuOption>) -> Seq<OptionView> {
    Seq::new(v.len(), |i: int| option_view(v[i]))
}

/// The views of menu groups.
pub open spec fn category_views(v: Seq<MenuCategory>) -> Seq<CategoryView> {
    Seq::new(v.len(), |i: int| (v[i].name@, option_views(v[i].options@)))
}

/// The groups and entries of the main menu.
pub open spec fn main_menu_table() -> Seq<CategoryView> {
    seq![
        ("START"@, seq![
            (1u32, "Generate Array List"@, "start"@),
        ]),
        ("SEARCH ALGORITHMS"@, seq![
            (2u32, "Linear Search"@, "search"@),
            (3u32, "Binary Search"@, "search"@),
        ]),
        ("SORTING ALGORITHMS"@, seq![
            (4u32, "Bubble Sort"@, "sort"@),
            (5u32, "Bucket Sort"@, "sort"@),
            (6u32, "Cocktail Sort"@, "sort"@),
            (7u32, "Comb Sort"@, "sort"@),
            (8u32, "Counting Sort"@, "sort"@),
            (9u32, "Gnome Sort"@, "sort"@),
            (10u32, "Heap Sort"@, "sort"@),
            (11u32, "Insertion Sort"@, "sort"@),
            (12u32, "Merge Sort"@, "sort"@),
            (13u32, "Pancake Sort"@, "sort"@),
            (14u32, "Quick Sort"@, "sort"@),
            (15u32, "Radix Sort"@, "sort"@),
            (16u32, "Selection Sort"@, "sort"@),
            (17u32, "Shell Sort"@, "search"@),
            (18u32, "Tim Sort"@, "search"@),
        ]),
        ("⚙️ SETTINGS & OTHERS"@, seq![
            (31u32, "Settings"@, "settings"@),
        ]),
    ]
}

/// A menu entry.
fn entry(id: u32, name: &str, category: &str) -> (o: MenuOption)
    ensures
        option_view(o) == (id, name@, category@),
{
    MenuOption { id, name: String::from_str(name), category: String::from_str(category) }
}

/// A menu group.
fn group(name: &str, options: Vec<MenuOption>) -> (c: MenuCategory)
    ensures
        c.name@ == name@,
        c.options@ == options@,
{
    MenuCategory { name: String::from_str(name), options }
}

/// The groups and entries of the main menu.
pub fn main_menu_categories() -> (v: Vec<MenuCategory>)
    ensures
        category_views(v@) == main_menu_table(),
{
    let mut o0: Vec<MenuOption> = Vec::new();
    o0.push(entry(1, "Generate Array List", "start"));
    assert(option_views(o0@) =~= main_menu_table()[0].1);
    let mut o1: Vec<MenuOption> = Vec::new();
    o1.push(entry(2, "Linear Search", "search"));
    o1.push(entry(3, "Binary Search", "search"));
    assert(option_views(o1@) =~= main_menu_table()[1].1);
    let mut o2: Vec<MenuOption> = Vec::new();
    o2.push(entry(4, "Bubble Sort", "sort"));
    o2.push(entry(5, "Bucket Sort", "sort"));
    o2.push(entry(6, "Cocktail Sort", "sort"));
    o2.push(entry(7, "Comb Sort", "sort"));
    o2.push(entry(8, "Counting Sort", "sort"));
    o2.push(entry(9, "Gnome Sort", "sort"));
    o2.push(entry(10, "Heap Sort", "sort"));
    o2.push(entry(11, "Insertion Sort", "sort"));
    o2.push(entry(12, "Merge Sort", "sort"));
    o2.push(entry(13, "Pancake Sort", "sort"));
    o2.push(entry(14, "Quick Sort", "sort"));
    o2.push(entry(15, "Radix Sort", "sort"));
    o2.push(entry(16, "Selection Sort", "sort"));
    o2.push(entry(17, "Shell Sort", "search"));
    o2.push(entry(18, "Tim Sort", "search"));
    assert(option_views(o2@) =~= main_menu_table()[2].1);
    let mut o3: Vec<MenuOption> = Vec::new();
    o3.push(entry(31, "Settings", "settings"));
    assert(option_views(o3@) =~= main_menu_table()[3].1);
    let mut v: Vec<MenuCategory> = Vec::new();
    v.push(group("START", o0));
    v.push(group("SEARCH ALGORITHMS", o1));
    v.push(group("SORTING ALGORITHMS", o2));
    v.push(group("⚙️ SETTINGS & OTHERS", o3));
    assert(category_views(v@) =~= main_menu_table());
    v
}

/// The category of a menu number, as `get_category_for_option` names it.
pub open spec fn option_category(option_id: u32) -> Seq<char> {
    if 1 <= option_id <= 10 {
        "search"@
    } else if 11 <= option_id <= 20 {
        "sort"@
    } else if 21 <= option_id <= 30 {
        "games"@
    } else if 31 <= option_id <= 98 {
        "settings"@
    } else if option_id == 99 {
        "exit"@
    } else {
        "unknown"@
    }
}

/// The category name for a menu number.
pub fn get_category_for_option(option_id: u32) -> (r: String)
    ensures
        r@ == option_category(option_id),
{
    if 1 <= option_id && option_id <= 10 {
        String::from_str("search")
    } else if 11 <= option_id && option_id <= 20 {
        String::from_str("sort")
    } else if 21 <= option_id && option_id <= 30 {
        String::from_str("games")
    } else if 31 <= option_id && option_id <= 98 {
        String::from_str("settings")
    } else if option_id == 99 {
        String::from_str("exit")
    } else {
        String::from_str("unknown")
    }
}

/// The description of a menu number.
pub open spec fn option_description(option_id: u32) -> Seq<char> {
    if option_id == 1 {
        "Generate a random array of numbers for algorithm testing and visualization"@
    } else if option_id == 2 {
        "Visualize linear search - searches elements one by one from start to end"@
    } else if option_id == 3 {
        "Visualize binary search - efficient search in sorted arrays using divide and conquer"@
    } else if option_id == 4 {
        "Visualize bubble sort - repeatedly swaps adjacent elements if they're in wrong order"@
    } else if option_id == 5 {
        "Visualize bucket sort - distributes elements into buckets then sorts each bucket"@
    } else if option_id == 6 {
        "Visualize cocktail sort - bidirectional bubble sort that sorts in both directions"@
    } else if option_id == 7 {
        "Visualize comb sort - improved bubble sort with gap sequence shrinking"@
    } else if option_id == 8 {
        "Visualize counting sort - counts occurrences of each element for non-comparison sorting"@
    } else if option_id == 9 {
        "Visualize gnome sort - simple sorting algorithm similar to insertion sort"@
    } else if option_id == 10 {
        "Visualize heap sort - uses binary heap data structure for efficient sorting"@
    } else if option_id == 11 {
        "Visualize insertion sort - builds sorted array one element at a time"@
    } else if option_id == 12 {
        "Visualize merge sort - divide and conquer algorithm that merges sorted subarrays"@
    } else if option_id == 13 {
        "Visualize pancake sort - sorts by flipping prefix of array like pancakes"@
    } else if option_id == 14 {
        "Visualize quick sort - efficient divide and conquer sorting with pivot selection"@
    } else if option_id == 15 {
        "Visualize radix sort - sorts integers by processing individual digits"@
    } else if option_id == 16 {
        "Visualize selection sort - finds minimum element and places it at beginning"@
    } else if option_id == 17 {
        "Visualize shell sort - generalized insertion sort with diminishing gaps"@
    } else if option_id == 18 {
        "Visualize tim sort - hybrid stable sorting algorithm derived from merge sort"@
    } else if option_id == 31 {
        "Configure application settings - speed, colors, array size, and display options"@
    } else if option_id == 99 {
        "Exit the application and return to terminal"@
    } else {
        "Unknown option - please select a valid menu item"@
    }
}

/// The human-readable description of a menu number.
pub fn get_option_description(option_id: u32) -> (r: String)
    ensures
        r@ == option_description(option_id),
{
    if option_id == 1 {
        String::from_str("Generate a random array of numbers for algorithm testing and visualization")
    } else if option_id == 2 {
        String::from_str("Visualize linear search - searches elements one by one from start to end")
    } else if option_id == 3 {
        String::from_str("Visualize binary search - efficient search in sorted arrays using divide and conquer")
    } else if option_id == 4 {
        String::from_str("Visualize bubble sort - repeatedly swaps adjacent elements if they're in wrong order")
    } else if option_id == 5 {
        String::from_str("Visualize bucket sort - distributes elements into buckets then sorts each bucket")
    } else if option_id == 6 {
        String::from_str("Visualize cocktail sort - bidirectional bubble sort that sorts in both directions")
    } else if option_id == 7 {
        String::from_str("Visualize comb sort - improved bubble sort with gap sequence shrinking")
    } else if option_id == 8 {
        String::from_str("Visualize counting sort - counts occurrences of each element for non-comparison sorting")
    } else if option_id == 9 {
        String::from_str("Visualize gnome sort - simple sorting algorithm similar to insertion sort")
    } else if option_id == 10 {
        String::from_str("Visualize heap sort - uses binary heap data structure for efficient sorting")
    } else if option_id == 11 {
        String::from_str("Visualize insertion sort - builds sorted array one element at a time")
    } else if option_id == 12 {
        String::from_str("Visualize merge sort - divide and conquer algorithm that merges sorted subarrays")
    } else if option_id == 13 {
        String::from_str("Visualize pancake sort - sorts by flipping prefix of array like pancakes")
    } else if option_id == 14 {
        String::from_str("Visualize quick sort - efficient divide and conquer sorting with pivot selection")
    } else if option_id == 15 {
        String::from_str("Visualize radix sort - sorts integers by processing individual digits")
    } else if option_id == 16 {
        String::from_str("Visualize selection sort - finds minimum element and places it at beginning")
    } else if option_id == 17 {
        String::from_str("Visualize shell sort - generalized insertion sort with diminishing gaps")
    } else if option_id == 18 {
        String::from_str("Visualize tim sort - hybrid stable sorting algorithm derived from merge sort")
    } else if option_id == 31 {
        String::from_str("Configure application settings - speed, colors, array size, and display options")
    } else if option_id == 99 {
        String::from_str("Exit the application and return to terminal")
    } else {
        String::from_str("Unknown option - please select a valid menu item")
    }
}

/// A key press, as the main menu interprets it.
#[derive(Clone, Copy, PartialEq, Eq, Debug, Structural)]
pub enum MenuKey {
    Up,
    Down,
    Left,
    Right,
    Tab,
    Enter,
    /// ESC, `q` or `Q`.
    Quit,
    /// `s`: the next group.
    NextCategory,
    /// `w`: the previous group.
    PreviousCategory,
    /// An ASCII digit, by its value.
    Digit(u32),
    Other,
}

/// The menu number that leaves the application.
pub const EXIT_OPTION: u32 = 99;

/// The main menu: its groups and the highlighted group and entry.
pub struct MainMenu {
    categories: Vec<MenuCategory>,
    selected_category: usize,
    selected_option: usize,
}

/// The main menu as a value.
pub struct MainMenuView {
    pub categories: Seq<CategoryView>,
    pub selected_category: int,
    pub selected_option: int,
}

impl View for MainMenu {
    type V = MainMenuView;

    closed spec fn view(&self) -> MainMenuView {
        MainMenuView {
            categories: category_views(self.categories@),
            selected_category: self.selected_category as int,
            selected_option: self.selected_option as int,
        }
    }
}

/// The position of the first entry numbered `id` in `options`.
pub open spec fn first_with_id(options: Seq<OptionView>, id: u32) -> Option<int>
    decreases options.len(),
{
    if options.len() == 0 {
        None
    } else {
        match first_with_id(options.drop_last(), id) {
            Some(o) => Some(o),
            None => if options.last().0 == id {
                Some(options.len() - 1)
            } else {
                None
            },
        }
    }
}

/// Where a digit key moves the highlight: the last group holding an entry with that
/// number, and the first such entry in it.
pub open spec fn find_option(categories: Seq<CategoryView>, id: u32) -> Option<(int, int)>
    decreases categories.len(),
{
    if categories.len() == 0 {
        None
    } else {
        match first_with_id(categories.last().1, id) {
            Some(o) => Some((categories.len() - 1, o)),
            None => find_option(categories.drop_last(), id),
        }
    }
}

/// A found entry lies in its group.
pub proof fn lemma_first_with_id(options: Seq<OptionView>, id: u32)
    ensures
        match first_with_id(options, id) {
            Some(o) => 0 <= o < options.len() && options[o].0 == id && forall|p: int|
                0 <= p < o ==> (#[trigger] options[p]).0 != id,
            None => forall|p: int| 0 <= p < options.len() ==> (#[trigger] options[p]).0 != id,
        },
    decreases options.len(),
{
    if options.len() > 0 {
        lemma_first_with_id(options.drop_last(), id);
        assert forall|p: int| 0 <= p < options.len() - 1 implies options[p] == options.drop_last()[p] by {}
    }
}

/// A found position lies in the menu.
pub proof fn lemma_find_option(categories: Seq<CategoryView>, id: u32)
    ensures
        match find_option(categories, id) {
            Some((c, o)) => 0 <= c < categories.len() && 0 <= o < categories[c].1.len(),
            None => true,
        },
    decreases categories.len(),
{
    if categories.len() > 0 {
        lemma_first_with_id(categories.last().1, id);
        lemma_find_option(categories.drop_last(), id);
    }
}

/// What `find_option` gives: a group where the number is found, with no later group
/// holding it; or no group holding it at all.
pub proof fn lemma_find_option_last(categories: Seq<CategoryView>, id: u32)
    ensures
        match find_option(categories, id) {
            Some((c, o)) => 0 <= c < categories.len() && first_with_id(categories[c].1, id) == Some(o)
                && forall|c2: int|
                c < c2 < categories.len() ==> (#[trigger] first_with_id(categories[c2].1, id)) is None,
            None => forall|c2: int|
                0 <= c2 < categories.len() ==> (#[trigger] first_with_id(categories[c2].1, id)) is None,
        },
    decreases categories.len(),
{
    if categories.len() > 0 {
        let rest = categories.drop_last();
        let last = categories.len() - 1;
        lemma_find_option_last(rest, id);
        assert forall|c2: int| 0 <= c2 < rest.len() implies categories[c2] == rest[c2] by {}
        match first_with_id(categories[last].1, id) {
            Some(o) => {
                assert(find_option(categories, id) == Some((last, o)));
            },
            None => {
                assert(find_option(categories, id) == find_option(rest, id));
                match find_option(rest, id) {
                    Some((c, o)) => {
                        assert(categories[c] == rest[c]);
                        assert forall|c2: int| c < c2 < categories.len() implies (#[trigger] first_with_id(
                            categories[c2].1,
                            id,
                        )) is None by {
                            if c2 < last {
                                assert(categories[c2] == rest[c2]);
                            }
                        }
                    },
                    None => {
                        assert forall|c2: int| 0 <= c2 < categories.len() implies (#[trigger] first_with_id(
                            categories[c2].1,
                            id,
                        )) is None by {
                            if c2 < last {
                                assert(categories[c2] == rest[c2]);
                            }
                        }
                    },
                }
            },
        }
    }
}

/// The first entry numbered `id` is the one before which no entry has that number.
pub proof fn lemma_first_with_id_at(options: Seq<OptionView>, id: u32, o: int)
    requires
        0 <= o < options.len(),
        options[o].0 == id,
        forall|p: int| 0 <= p < o ==> (#[trigger] options[p]).0 != id,
    ensures
        first_with_id(options, id) == Some(o),
{
    lemma_first_with_id(options, id);
}

/// No entry numbered `id` is found where none has that number.
pub proof fn lemma_first_with_id_none(options: Seq<OptionView>, id: u32)
    requires
        forall|p: int| 0 <= p < options.len() ==> (#[trigger] options[p]).0 != id,
    ensures
        first_with_id(options, id) is None,
{
    lemma_first_with_id(options, id);
}

/// Whether every group has an entry and the highlight is on one.
pub open spec fn menu_wf(m: MainMenuView) -> bool {
    &&& m.categories.len() > 0
    &&& forall|c: int| 0 <= c < m.categories.len() ==> (#[trigger] m.categories[c]).1.len() > 0
    &&& 0 <= m.selected_category < m.categories.len()
    &&& 0 <= m.selected_option < m.categories[m.selected_category].1.len()
}

/// The menu after `key`, and the chosen menu number where `key` closes it.
pub open spec fn menu_key(m: MainMenuView, key: MenuKey) -> (MainMenuView, Option<u32>) {
    let n = m.categories.len();
    let count = m.categories[m.selected_category].1.len();
    match key {
        MenuKey::Down => (
            MainMenuView {
                selected_option: if m.selected_option < count - 1 {
                    m.selected_option + 1
                } else {
                    0
                },
                ..m
            },
            None,
        ),
        MenuKey::Up => (
            MainMenuView {
                selected_option: if m.selected_option > 0 {
                    m.selected_option - 1
                } else {
                    count - 1
                },
                ..m
            },
            None,
        ),
        MenuKey::NextCategory => (
            MainMenuView {
                selected_category: (m.selected_category + 1) % (n as int),
                selected_option: 0,
                ..m
            },
            None,
        ),
        MenuKey::PreviousCategory => (
            MainMenuView {
                selected_category: if m.selected_category == 0 {
                    n - 1
                } else {
                    m.selected_category - 1
                },
                selected_option: 0,
                ..m
            },
            None,
        ),
        MenuKey::Enter => (m, Some(m.categories[m.selected_category].1[m.selected_option].0)),
        MenuKey::Quit => (m, Some(EXIT_OPTION)),
        MenuKey::Digit(d) => (
            match find_option(m.categories, d) {
                Some((c, o)) => MainMenuView { selected_category: c, selected_option: o, ..m },
                None => m,
            },
            None,
        ),
        _ => (m, None),
    }
}

impl MainMenu {
    /// The menu's invariant.
    pub open spec fn wf(&self) -> bool {
        menu_wf(self@)
    }

    /// The main menu with its first entry highlighted.
    pub fn new() -> (r: Self)
        ensures
            r@.categories == main_menu_table(),
            r@.selected_category == 0,
            r@.selected_option == 0,
            r.wf(),
    {
        let categories = main_menu_categories();
        MainMenu { categories, selected_category: 0, selected_option: 0 }
    }

    /// Handles one key press: moves the highlight, or gives the chosen menu number where
    /// the key closes the menu.
    pub fn handle_key(&mut self, key: MenuKey) -> (r: Option<u32>)
        requires
            old(self).wf(),
        ensures
            final(self).wf(),
            (final(self)@, r) == menu_key(old(self)@, key),
    {
        let n = self.categories.len();
        let count = self.categories[self.selected_category].options.len();
        proof {
            assert(self@.categories[self.selected_category as int].1.len() == count);
        }
        match key {
            MenuKey::Down => {
                if self.selected_option < count - 1 {
                    self.selected_option = self.selected_option + 1;
                } else {
                    self.selected_option = 0;
                }
                None
            },
            MenuKey::Up => {
                if self.selected_option > 0 {
                    self.selected_option = self.selected_option - 1;
                } else {
                    self.selected_option = count - 1;
                }
                None
            },
            MenuKey::NextCategory => {
                self.selected_category = (self.selected_category + 1) % n;
                self.selected_option = 0;
                None
            },
            MenuKey::PreviousCategory => {
                self.selected_category = if self.selected_category == 0 {
                    n - 1
                } else {
                    self.selected_category - 1
                };
                self.selected_option = 0;
                None
            },
            MenuKey::Enter => {
                let id = self.categories[self.selected_category].options[self.selected_option].id;
                proof {
                    assert(self@.categories[self.selected_category as int].1[self.selected_option as int].0
                        == id);
                }
                Some(id)
            },
            MenuKey::Quit => Some(EXIT_OPTION),
            MenuKey::Digit(d) => {
                let mut c: usize = 0;
                let mut found: Option<(usize, usize)> = None;
                while c < n
                    invariant
                        n == self.categories@.len(),
                        c <= n,
                        match found {
                            Some((fc, fo)) => find_option(self@.categories.take(c as int), d)
                                == Some((fc as int, fo as int)),
                            None => find_option(self@.categories.take(c as int), d) is None,
                        },
                    decreases n - c,
                {
                    let options = &self.categories[c].options;
                    let ghost opts = self@.categories[c as int].1;
                    let mut o: usize = 0;
                    let mut hit: Option<usize> = None;
                    while o < options.len() && hit.is_none()
                        invariant
                            opts == option_views(options@),
                            o <= options@.len(),
                            hit is None ==> forall|p: int| 0 <= p < o ==> (#[trigger] opts[p]).0 != d,
                            hit matches Some(h) ==> h < o && opts[h as int].0 == d && forall|p: int|
                                0 <= p < h ==> (#[trigger] opts[p]).0 != d,
                        decreases options@.len() - o,
                    {
                        if options[o].id == d {
                            hit = Some(o);
                        }
                        o = o + 1;
                    }
                    proof {
                        lemma_first_with_id(opts, d);
                        let cats = self@.categories.take(c + 1);
                        assert(cats.drop_last() =~= self@.categories.take(c as int));
                        assert(cats.last() == self@.categories[c as int]);
                        match first_with_id(opts, d) {
                            Some(fo) => {
                                if hit is None {
                                    assert(opts[fo].0 == d);
                                }
                                let h = hit->0 as int;
                                if h < fo {
                                    assert(opts[h].0 == d);
                                }
                                if h > fo {
                                    assert(opts[fo].0 == d);
                                }
                            },
                            None => {
                                if hit is Some {
                                    let h = hit->0 as int;
                                    assert(opts[h].0 == d);
                                }
                            },
                        }
                    }
                    match hit {
                        Some(h) => {
                            found = Some((c, h));
                        },
                        None => {},
                    }
                    c = c + 1;
                }
                proof {
                    assert(self@.categories.take(n as int) =~= self@.categories);
                    lemma_find_option(self@.categories, d);
                }
                match found {
                    Some((fc, fo)) => {
                        self.selected_category = fc;
                        self.selected_option = fo;
                    },
                    None => {},
                }
                None
            },
            _ => None,
        }
    }

    /// The groups of the menu.
    pub fn categories(&self) -> (r: &Vec<MenuCategory>)
        ensures
            category_views(r@) == self@.categories,
    {
        &self.categories
    }

    /// The highlighted group.
    pub fn selected_category(&self) -> (r: usize)
        ensures
            r == self@.selected_category,
    {
        self.selected_category
    }

    /// The highlighted entry of the highlighted group.
    pub fn selected_option(&self) -> (r: usize)
        ensures
            r == self@.selected_option,
    {
        self.selected_option
    }
}

/// A menu entry cut to `max_width` columns: one of more than `max_width - 3` characters
/// keeps its first `max_width - 6` and ends in `...`.
pub open spec fn fitted_entry(text: Seq<char>, max_width: int) -> Seq<char> {
    if text.len() > max_width - 3 {
        text.take(max_width - 6) + "..."@
    } else {
        text
    }
}

/// A menu entry cut to fit `max_width` columns.
pub fn fit_entry(text: &str, max_width: usize) -> (r: String)
    requires
        max_width >= 3,
        text@.len() > max_width - 3 ==> max_width >= 6,
    ensures
        r@ == fitted_entry(text@, max_width as int),
{
    let chars = chars_of(text);
    if chars.len() > max_width - 3 {
        let mut kept: Vec<char> = Vec::new();
        let mut k: usize = 0;
        while k < max_width - 6
            invariant
                max_width >= 6,
                max_width - 6 < chars@.len(),
                k <= max_width - 6,
                kept@ == chars@.take(k as int),
            decreases max_width - 6 - k,
        {
            kept.push(chars[k]);
            k = k + 1;
            assert(kept@ =~= chars@.take(k as int));
        }
        let mut r = string_from_chars(&kept);
        r.append("...");
        r
    } else {
        String::from_str(text)
    }
}

/// A description cut to `max_width` bytes: one longer in UTF-8 keeps its first
/// `max_width - 3` bytes (none where `max_width` is below 3) and ends in `...`.
pub open spec fn fitted_description(text: Seq<char>, max_width: int) -> Seq<char> {
    let keep: int = if max_width >= 3 { max_width - 3 } else { 0 };
    if utf8_len(text) > max_width {
        text.take(char_index(text, keep)) + "..."@
    } else {
        text
    }
}

/// A description cut to fit `max_width` bytes; the cut must fall between two characters.
pub fn fit_description(text: &str, max_width: usize) -> (r: String)
    requires
        utf8_len(text@) > max_width ==> at_boundary(text@, if max_width >= 3 { max_width - 3 } else { 0 }),
    ensures
        r@ == fitted_description(text@, max_width as int),
{
    let chars = chars_of(text);
    if utf8_longer_than(&chars, max_width) {
        let keep: usize = if max_width >= 3 { max_width - 3 } else { 0 };
        let count = chars_before_byte(&chars, keep);
        let mut kept: Vec<char> = Vec::new();
        let mut k: usize = 0;
        while k < count
            invariant
                count <= chars@.len(),
                k <= count,
                kept@ == chars@.take(k as int),
            decreases count - k,
        {
            kept.push(chars[k]);
            k = k + 1;
            assert(kept@ =~= chars@.take(k as int));
        }
        let mut r = string_from_chars(&kept);
        r.append("...");
        r
    } else {
        String::from_str(text)
    }
}

} // verus!
