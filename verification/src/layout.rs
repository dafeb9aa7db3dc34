//! The layout page: the desktop layouts found on the system, which of them
//! the user picked, and how they are shown.

use vstd::prelude::*;
use crate::metadata::{LayoutNames, read_layout_metadata, kdl_document_nodes, layout_names, layout_id};
use crate::text::{prefix_before, prefix_until};

verus! {

/// A desktop layout that can be applied.
#[derive(Debug)]
pub struct Layout {
    /// The number by which layouts are ordered.
    pub id: i32,
    /// The display names, by locale.
    pub names: LayoutNames,
    /// The directory that holds the layout's configuration.
    pub path: String,
    /// The thumbnail shown for the layout.
    pub icon_path: String,
}

/// The name to show for a layout in `locale`: the name for the full locale,
/// else for its language (the part before `_`), else the English one.
pub open spec fn resolve_name(names: Map<Seq<char>, Seq<char>>, locale: Seq<char>) -> Option<
    Seq<char>,
> {
    let language = prefix_before(locale, '_');
    if names.contains_key(locale) {
        Some(names[locale])
    } else if names.contains_key(language) {
        Some(names[language])
    } else if names.contains_key("en"@) {
        Some(names["en"@])
    } else {
        None
    }
}

impl Layout {
    /// Builds the layout whose metadata file holds `text`; `None` when the
    /// text is not a KDL document.
    pub fn from_metadata(text: &str, path: String, icon_path: String) -> (res: Option<Layout>)
        ensures
            res is Some <==> kdl_document_nodes(text@) is Some,
            res matches Some(layout) ==> {
                &&& layout.names@ == layout_names(kdl_document_nodes(text@)->0)
                &&& layout.id == layout_id(kdl_document_nodes(text@)->0)
                &&& layout.path == path
                &&& layout.icon_path == icon_path
            },
    {
        match read_layout_metadata(text) {
            Some((names, id)) => Some(Layout { id, names, path, icon_path }),
            None => None,
        }
    }

    /// The name to show for this layout in `locale`.
    pub fn display_name(&self, locale: &str) -> (res: Option<&String>)
        ensures
            res matches Some(name) ==> resolve_name(self.names@, locale@) == Some(name@),
            res is None ==> resolve_name(self.names@, locale@) is None,
    {
        match self.names.get(locale) {
            Some(name) => Some(name),
            None => {
                let language = prefix_until(locale, '_');
                match self.names.get(language) {
                    Some(name) => Some(name),
                    None => {
                        proof {
                            reveal_strlit("en");
                        }
                        self.names.get("en")
                    },
                }
            },
        }
    }
}

/// What the user can do on the layout page.
#[derive(Copy, Clone, Debug, PartialEq, Eq, Structural)]
pub enum Message {
    /// The layout at this position of the list was picked.
    Selected(usize),
}

/// Whether `s` lists layouts in ascending order of their numbers.
pub open spec fn sorted_by_id(s: Seq<Layout>) -> bool {
    forall|i: int, j: int| 0 <= i <= j < s.len() ==> s[i].id <= s[j].id
}

pub open spec fn has_id(k: i32) -> spec_fn(Layout) -> bool {
    |l: Layout| l.id == k
}

/// The layouts of `s` with number `k`, in their order in `s`.
pub open spec fn with_id(s: Seq<Layout>, k: i32) -> Seq<Layout> {
    s.filter(has_id(k))
}

proof fn lemma_filter_none(s: Seq<Layout>, k: i32)
    requires
        forall|i: int| 0 <= i < s.len() ==> s[i].id != k,
    ensures
        with_id(s, k) == Seq::<Layout>::empty(),
    decreases s.len(),
{
    reveal(Seq::filter);
    if s.len() > 0 {
        lemma_filter_none(s.drop_last(), k);
    }
}

proof fn lemma_filter_single(x: Layout, k: i32)
    ensures
        with_id(seq![x], k) == (if x.id == k { seq![x] } else { Seq::<Layout>::empty() }),
{
    reveal_with_fuel(Seq::filter, 2);
    assert(seq![x].drop_last() =~= Seq::<Layout>::empty());
}

/// Inserting `x` into a sorted `s` after every layout with a number up to
/// its own keeps `s` sorted, and puts `x` after the layouts of its number.
proof fn lemma_insert_sorted(s: Seq<Layout>, p: int, x: Layout)
    requires
        sorted_by_id(s),
        0 <= p <= s.len(),
        forall|j: int| 0 <= j < p ==> s[j].id <= x.id,
        forall|j: int| p <= j < s.len() ==> s[j].id > x.id,
    ensures
        sorted_by_id(s.insert(p, x)),
        forall|k: i32|
            #![trigger with_id(s.insert(p, x), k)]
            with_id(s.insert(p, x), k) == with_id(s.push(x), k),
{
    let t = s.insert(p, x);
    assert forall|i: int, j: int| 0 <= i <= j < t.len() implies t[i].id <= t[j].id by {
        if j < p {
        } else if j == p {
        } else if i < p {
        } else if i == p {
        } else {
            assert(t[i] == s[i - 1] && t[j] == s[j - 1]);
        }
    }
    let a = s.take(p);
    let b = s.skip(p);
    assert(t =~= a + seq![x] + b);
    assert(s =~= a + b);
    assert(s.push(x) =~= a + b + seq![x]);
    assert forall|k: i32| #![trigger with_id(t, k)] with_id(t, k) == with_id(s.push(x), k) by {
        let f = has_id(k);
        Seq::filter_distributes_over_add(a + seq![x], b, f);
        Seq::filter_distributes_over_add(a, seq![x], f);
        Seq::filter_distributes_over_add(a + b, seq![x], f);
        Seq::filter_distributes_over_add(a, b, f);
        lemma_filter_single(x, k);
        if x.id == k {
            lemma_filter_none(b, k);
            assert(with_id(t, k) =~= with_id(a, k) + seq![x]);
            assert(with_id(s.push(x), k) =~= with_id(a, k) + seq![x]);
        } else {
            assert(with_id(t, k) =~= with_id(a, k) + with_id(b, k));
            assert(with_id(s.push(x), k) =~= with_id(a, k) + with_id(b, k));
        }
    }
}

/// The last layout of a sorted, non-empty `s` is the last one with its
/// number.
proof fn lemma_last_of_its_number(s: Seq<Layout>)
    requires
        s.len() > 0,
    ensures
        with_id(s, s.last().id) == with_id(s.drop_last(), s.last().id).push(s.last()),
        forall|k: i32| k != s.last().id ==> #[trigger] with_id(s, k) == with_id(s.drop_last(), k),
{
    reveal(Seq::filter);
    assert forall|k: i32| k != s.last().id implies #[trigger] with_id(s, k) == with_id(
        s.drop_last(),
        k,
    ) by {
        reveal(Seq::filter);
    }
}

/// A sorted sequence holding a layout with number `k` ends with a number of
/// at least `k`.
proof fn lemma_number_bounded_by_last(s: Seq<Layout>, k: i32)
    requires
        sorted_by_id(s),
        with_id(s, k).len() > 0,
    ensures
        s.len() > 0,
        k <= s.last().id,
{
    broadcast use Seq::lemma_filter_pred, Seq::lemma_filter_contains_rev, Seq::lemma_filter_len;

    let x = with_id(s, k)[0];
    assert(has_id(k)(x));
    assert(with_id(s, k).contains(x));
    assert(s.contains(x));
    let j = choose|j: int| 0 <= j < s.len() && s[j] == x;
    assert(s[j].id <= s[s.len() - 1].id);
}

/// There is only one stable ordering by number: two sequences that are both
/// sorted by number and hold, for every number, the same layouts with that
/// number in the same order, are equal. In particular, ordering layouts that
/// are already in order leaves them as they are.
pub proof fn lemma_stable_order_is_unique(a: Seq<Layout>, b: Seq<Layout>)
    requires
        sorted_by_id(a),
        sorted_by_id(b),
        forall|k: i32| #[trigger] with_id(a, k) == with_id(b, k),
    ensures
        a == b,
    decreases a.len() + b.len(),
{
    if a.len() == 0 && b.len() == 0 {
        assert(a =~= b);
    } else if a.len() == 0 {
        lemma_last_of_its_number(b);
        lemma_filter_none(a, b.last().id);
        assert(with_id(a, b.last().id) == with_id(b, b.last().id));
    } else if b.len() == 0 {
        lemma_last_of_its_number(a);
        lemma_filter_none(b, a.last().id);
        assert(with_id(a, a.last().id) == with_id(b, a.last().id));
    } else {
        let ma = a.last().id;
        let mb = b.last().id;
        lemma_last_of_its_number(a);
        lemma_last_of_its_number(b);
        assert(with_id(a, ma) == with_id(b, ma));
        assert(with_id(a, mb) == with_id(b, mb));
        lemma_number_bounded_by_last(b, ma);
        lemma_number_bounded_by_last(a, mb);
        assert(ma == mb);
        assert(a.last() == with_id(a, ma).last());
        assert(b.last() == with_id(b, ma).last());
        assert forall|k: i32| #[trigger] with_id(a.drop_last(), k) == with_id(b.drop_last(), k) by {
            assert(with_id(a, k) == with_id(b, k));
            if k == ma {
                assert(with_id(a.drop_last(), k) =~= with_id(a, k).drop_last());
                assert(with_id(b.drop_last(), k) =~= with_id(b, k).drop_last());
            }
        }
        lemma_stable_order_is_unique(a.drop_last(), b.drop_last());
        assert(a =~= a.drop_last().push(a.last()));
        assert(b =~= b.drop_last().push(b.last()));
    }
}

/// Orders `layouts` by their numbers, keeping the order of layouts with the
/// same number: a stable sort.
pub fn sort_by_id(layouts: Vec<Layout>) -> (res: Vec<Layout>)
    ensures
        res@.len() == layouts@.len(),
        sorted_by_id(res@),
        forall|k: i32| #[trigger] with_id(res@, k) == with_id(layouts@, k),
{
    let ghost original = layouts@;
    let mut rest = layouts;
    let mut sorted: Vec<Layout> = Vec::new();
    let ghost mut done: int = 0;
    proof {
        assert(original.take(0) =~= Seq::<Layout>::empty());
        assert forall|k: i32| #[trigger] with_id(sorted@, k) == with_id(original.take(0), k) by {
            lemma_filter_none(sorted@, k);
            lemma_filter_none(original.take(0), k);
        }
        assert(rest@ =~= original.skip(0));
    }
    while rest.len() > 0
        invariant
            0 <= done <= original.len(),
            rest@ == original.skip(done),
            sorted@.len() == done,
            sorted_by_id(sorted@),
            forall|k: i32| #[trigger] with_id(sorted@, k) == with_id(original.take(done), k),
        decreases rest@.len(),
    {
        let x = rest.remove(0);
        assert(x == original[done]);
        assert(rest@ =~= original.skip(done + 1));
        let mut p: usize = 0;
        while p < sorted.len() && sorted[p].id <= x.id
            invariant
                p <= sorted@.len(),
                forall|j: int| 0 <= j < p ==> sorted@[j].id <= x.id,
            decreases sorted@.len() - p,
        {
            p = p + 1;
        }
        proof {
            lemma_insert_sorted(sorted@, p as int, x);
            assert(original.take(done + 1) =~= original.take(done).push(x));
            assert forall|k: i32| with_id(sorted@.push(x), k) == with_id(original.take(done + 1), k) by {
                Seq::filter_distributes_over_add(sorted@, seq![x], has_id(k));
                Seq::filter_distributes_over_add(original.take(done), seq![x], has_id(k));
                assert(sorted@.push(x) =~= sorted@ + seq![x]);
                assert(original.take(done).push(x) =~= original.take(done) + seq![x]);
                assert(with_id(sorted@, k) == with_id(original.take(done), k));
                assert(with_id(sorted@ + seq![x], k) == with_id(sorted@, k) + with_id(seq![x], k));
                assert(with_id(original.take(done) + seq![x], k) == with_id(original.take(done), k)
                    + with_id(seq![x], k));
            }
        }
        sorted.insert(p, x);
        proof {
            done = done + 1;
        }
    }
    proof {
        assert(original.take(done) =~= original);
    }
    sorted
}

/// The positions `3 * row .. min(3 * row + 3, count)`: the layouts shown on
/// one row of the page's grid, three to a row.
pub open spec fn grid_row(count: nat, row: nat) -> Seq<usize> {
    let start = 3 * row;
    let end = if count < start + 3 { count } else { start + 3 };
    Seq::new((end - start) as nat, |j: int| (start + j) as usize)
}

/// The locale named by a `LANG` value: the part before the first `.`
/// (`de_DE.UTF-8` names `de_DE`).
pub open spec fn locale_of_lang(lang: Seq<char>) -> Seq<char> {
    prefix_before(lang, '.')
}

/// The state of the layout page.
#[derive(Debug)]
pub struct Page {
    locale: String,
    layouts: Vec<Layout>,
    selected: Option<usize>,
}

impl Page {
    /// The locale in which layout names are shown.
    pub closed spec fn locale_view(&self) -> Seq<char> {
        self.locale@
    }

    /// The layouts offered, in the order shown.
    pub closed spec fn layouts_view(&self) -> Seq<Layout> {
        self.layouts@
    }

    /// The position of the layout picked last, if any.
    pub closed spec fn selected_view(&self) -> Option<usize> {
        self.selected
    }

    /// A page without layouts, locale or choice.
    pub fn new() -> (res: Self)
        ensures
            res.locale_view() == Seq::<char>::empty(),
            res.layouts_view() == Seq::<Layout>::empty(),
            res.selected_view() is None,
    {
        Page { locale: String::new(), layouts: Vec::new(), selected: None }
    }

    /// Handles a message: picking a layout that is on offer records the
    /// choice and returns the directory of the layout to apply; picking a
    /// position past the end changes nothing and returns `None`.
    pub fn update(&mut self, message: Message) -> (res: Option<String>)
        ensures
            final(self).layouts_view() == old(self).layouts_view(),
            final(self).locale_view() == old(self).locale_view(),
            match message {
                Message::Selected(id) => if id < old(self).layouts_view().len() {
                    &&& final(self).selected_view() == Some(id)
                    &&& res == Some(old(self).layouts_view()[id as int].path)
                } else {
                    &&& final(self).selected_view() == old(self).selected_view()
                    &&& res is None
                },
            },
    {
        match message {
            Message::Selected(id) => {
                if id < self.layouts.len() {
                    self.selected = Some(id);
                    Some(self.layouts[id].path.clone())
                } else {
                    None
                }
            },
        }
    }

    /// Replaces the layouts on offer with `layouts`, ordered by their
    /// numbers; layouts with the same number keep their order. The choice
    /// and the locale are left as they were.
    pub fn set_layouts(&mut self, layouts: Vec<Layout>)
        ensures
            final(self).layouts_view().len() == layouts@.len(),
            sorted_by_id(final(self).layouts_view()),
            forall|k: i32| #[trigger] with_id(final(self).layouts_view(), k) == with_id(layouts@, k),
            final(self).locale_view() == old(self).locale_view(),
            final(self).selected_view() == old(self).selected_view(),
    {
        self.layouts = sort_by_id(layouts);
    }

    /// Takes the locale from a `LANG` value: its part before the first `.`.
    pub fn set_locale_from_lang(&mut self, lang: &str)
        ensures
            final(self).locale_view() == locale_of_lang(lang@),
            final(self).layouts_view() == old(self).layouts_view(),
            final(self).selected_view() == old(self).selected_view(),
    {
        self.locale = prefix_until(lang, '.').to_owned();
    }

    /// The positions of the layouts, grouped into the rows of the page's
    /// grid: three to a row, the last row holding the rest.
    pub fn grid_rows(&self) -> (rows: Vec<Vec<usize>>)
        ensures
            rows@.len() == (self.layouts_view().len() + 2) / 3,
            forall|r: int|
                0 <= r < rows@.len() ==> #[trigger] rows@[r]@ == grid_row(
                    self.layouts_view().len(),
                    r as nat,
                ),
    {
        let count = self.layouts.len();
        let mut rows: Vec<Vec<usize>> = Vec::new();
        let mut start: usize = 0;
        while start < count
            invariant
                count == self.layouts@.len(),
                start == 3 * rows@.len(),
                start <= count + 2,
                rows@.len() == (start + 2) / 3,
                forall|r: int| 0 <= r < rows@.len() ==> #[trigger] rows@[r]@ == grid_row(count as nat, r as nat),
            decreases count + 3 - start,
        {
            let end = if count - start < 3 { count } else { start + 3 };
            let mut row: Vec<usize> = Vec::new();
            let mut i = start;
            while i < end
                invariant
                    start <= i <= end,
                    row@ == Seq::new((i - start) as nat, |j: int| (start + j) as usize),
                decreases end - i,
            {
                row.push(i);
                i = i + 1;
                assert(row@ =~= Seq::new((i - start) as nat, |j: int| (start + j) as usize));
            }
            let ghost r = rows@.len();
            assert(row@ =~= grid_row(count as nat, r as nat));
            rows.push(row);
            start = start + 3;
        }
        rows
    }

    /// Whether the layout at `index` is the one picked.
    pub fn is_selected(&self, index: usize) -> (res: bool)
        ensures
            res == (self.selected_view() == Some(index)),
    {
        match self.selected {
            Some(current) => current == index,
            None => false,
        }
    }

    /// The layout page can be skipped.
    pub fn skippable(&self) -> (res: bool)
        ensures
            res,
    {
        true
    }

    /// The layouts offered, in the order shown.
    pub fn layouts(&self) -> (res: &Vec<Layout>)
        ensures
            res@ == self.layouts_view(),
    {
        &self.layouts
    }

    /// The locale in which layout names are shown.
    pub fn locale(&self) -> (res: &str)
        ensures
            res@ == self.locale_view(),
    {
        self.locale.as_str()
    }

    /// The position of the layout picked last, if any.
    pub fn selected(&self) -> (res: Option<usize>)
        ensures
            res == self.selected_view(),
    {
        self.selected
    }
}

impl Default for Page {
    fn default() -> (res: Self)
        ensures
            res.locale_view() == Seq::<char>::empty(),
            res.layouts_view() == Seq::<Layout>::empty(),
            res.selected_view() is None,
    {
        Page::new()
    }
}

/// A layout's entry for the full locale is always the name shown for it;
/// the language's entry is shown only without one, and the English one only
/// without both. Recording a name for a locale makes it the name shown there.
pub proof fn lemma_name_preference(names: Map<Seq<char>, Seq<char>>, locale: Seq<char>, name: Seq<char>)
    ensures
        names.contains_key(locale) ==> resolve_name(names, locale) == Some(names[locale]),
        !names.contains_key(locale) && names.contains_key(prefix_before(locale, '_'))
            ==> resolve_name(names, locale) == Some(names[prefix_before(locale, '_')]),
        resolve_name(names.insert(locale, name), locale) == Some(name),
        resolve_name(names, locale) is None <==> !names.contains_key(locale)
            && !names.contains_key(prefix_before(locale, '_')) && !names.contains_key("en"@),
{
}

/// The rows of the grid, one after another: positions `0 .. 3 * rows`, as
/// far as there are layouts.
pub open spec fn grid_positions(count: nat, rows: nat) -> Seq<usize>
    decreases rows,
{
    if rows == 0 {
        Seq::empty()
    } else {
        grid_positions(count, (rows - 1) as nat) + grid_row(count, (rows - 1) as nat)
    }
}

proof fn lemma_grid_positions_prefix(count: nat, rows: nat)
    requires
        3 * rows <= count + 2,
    ensures
        grid_positions(count, rows) == Seq::new(
            if count < 3 * rows { count } else { 3 * rows },
            |i: int| i as usize,
        ),
    decreases rows,
{
    if rows > 0 {
        lemma_grid_positions_prefix(count, (rows - 1) as nat);
        assert(grid_positions(count, rows) =~= Seq::new(
            if count < 3 * rows { count } else { 3 * rows },
            |i: int| i as usize,
        ));
    } else {
        assert(grid_positions(count, 0) =~= Seq::new(0, |i: int| i as usize));
    }
}

/// The grid shows every layout exactly once, in list order: its rows, one
/// after another, are the positions `0, 1, ..., count - 1`. Every row but
/// the last holds three layouts, and the last one between one and three.
pub proof fn lemma_grid_shows_every_layout_once(count: nat)
    ensures
        grid_positions(count, (count + 2) / 3) == Seq::new(count, |i: int| i as usize),
        forall|r: nat| r + 1 < (count + 2) / 3 ==> #[trigger] grid_row(count, r).len() == 3,
        count > 0 ==> 1 <= grid_row(count, ((count + 2) / 3 - 1) as nat).len() <= 3,
{
    lemma_grid_positions_prefix(count, (count + 2) / 3);
}

} // verus!
