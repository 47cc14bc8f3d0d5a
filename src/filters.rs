//! Filter selections from the host and their folding into one query intent.
use vstd::prelude::*;
use crate::tables::{chapter_threshold, chapter_threshold_of, get_tag_id, sort_code, sort_code_of, tag_id_of};
use crate::text::{str_eq, url_encoded, urlencode};

verus! {

/// How the host presents a filter.
#[derive(Clone, Copy, Debug, PartialEq, Eq, Structural)]
pub enum FilterKind {
    Base,
    Group,
    Text,
    Check,
    Select,
    Sort,
    Title,
    Author,
    Genre,
}

/// The value a filter carries: a number (a chosen index, a tri-state
/// genre mark), a text, or nothing.
#[derive(Debug)]
pub enum FilterValue {
    Null,
    Int(i64),
    Text(String),
}

/// One user-chosen search constraint.
#[derive(Debug)]
pub struct Filter {
    pub kind: FilterKind,
    pub name: String,
    pub value: FilterValue,
}

/// A complete search request in the site's terms. `gender` and `completed`
/// are -1 when unset, `chapter_count` is 0 when unset, an empty `title` is no
/// title.
#[derive(Debug)]
pub struct QueryIntent {
    pub title: String,
    pub included_tags: Vec<String>,
    pub excluded_tags: Vec<String>,
    pub sort_by: i32,
    pub gender: i64,
    pub completed: i64,
    pub chapter_count: i32,
}

/// The mathematical value of a query intent.
pub struct IntentView {
    pub title: Seq<char>,
    pub included: Seq<Seq<char>>,
    pub excluded: Seq<Seq<char>>,
    pub sort_by: int,
    pub gender: int,
    pub completed: int,
    pub chapter_count: int,
}

/// The texts of a sequence of strings.
pub open spec fn texts(v: Seq<String>) -> Seq<Seq<char>> {
    v.map_values(|s: String| s@)
}

impl View for QueryIntent {
    type V = IntentView;

    open spec fn view(&self) -> IntentView {
        IntentView {
            title: self.title@,
            included: texts(self.included_tags@),
            excluded: texts(self.excluded_tags@),
            sort_by: self.sort_by as int,
            gender: self.gender as int,
            completed: self.completed as int,
            chapter_count: self.chapter_count as int,
        }
    }
}

/// The intent before any filter is applied: nothing set, sorted by new chapters.
pub open spec fn empty_intent() -> IntentView {
    IntentView {
        title: Seq::empty(),
        included: Seq::empty(),
        excluded: Seq::empty(),
        sort_by: 0,
        gender: -1,
        completed: -1,
        chapter_count: 0,
    }
}

/// A filter's number, or `default` when it carries none.
pub open spec fn int_or(v: FilterValue, default: int) -> int {
    match v {
        FilterValue::Int(n) => n as int,
        _ => default,
    }
}

/// A chosen index where index 0 means "unset" (-1).
pub open spec fn choice_or_unset(n: int) -> int {
    if n == 0 {
        -1
    } else {
        n
    }
}

/// The intent after one more filter has been applied.
pub open spec fn apply_spec(iv: IntentView, f: Filter) -> IntentView {
    match f.kind {
        FilterKind::Title => match f.value {
            FilterValue::Text(s) => IntentView { title: url_encoded(s@), ..iv },
            _ => iv,
        },
        FilterKind::Genre => {
            let v = int_or(f.value, -1);
            if v == 0 {
                IntentView { excluded: iv.excluded.push(tag_id_of(f.name@)), ..iv }
            } else if v == 1 {
                IntentView { included: iv.included.push(tag_id_of(f.name@)), ..iv }
            } else {
                iv
            }
        },
        _ => {
            if f.name@ == "Tình trạng"@ {
                IntentView { completed: choice_or_unset(int_or(f.value, -1)), ..iv }
            } else if f.name@ == "Số lượng chapter"@ {
                IntentView { chapter_count: chapter_threshold_of(int_or(f.value, 0)), ..iv }
            } else if f.name@ == "Sắp xếp theo"@ {
                IntentView { sort_by: sort_code_of(int_or(f.value, 0)), ..iv }
            } else if f.name@ == "Dành cho"@ {
                IntentView { gender: choice_or_unset(int_or(f.value, -1)), ..iv }
            } else {
                iv
            }
        },
    }
}

/// The intent that a sequence of filters folds into, applied in order.
pub open spec fn normalize_spec(fs: Seq<Filter>) -> IntentView
    decreases fs.len(),
{
    if fs.len() == 0 {
        empty_intent()
    } else {
        apply_spec(normalize_spec(fs.drop_last()), fs.last())
    }
}

fn int_value_or(v: &FilterValue, default: i64) -> (r: i64)
    ensures
        r as int == int_or(*v, default as int),
{
    match v {
        FilterValue::Int(n) => *n,
        _ => default,
    }
}

impl QueryIntent {
    /// The intent with nothing set, sorted by new chapters.
    pub fn new() -> (r: QueryIntent)
        ensures
            r@ == empty_intent(),
    {
        let r = QueryIntent {
            title: String::new(),
            included_tags: Vec::new(),
            excluded_tags: Vec::new(),
            sort_by: 0,
            gender: -1,
            completed: -1,
            chapter_count: 0,
        };
        assert(texts(r.included_tags@) =~= Seq::empty());
        assert(texts(r.excluded_tags@) =~= Seq::empty());
        r
    }

    /// Applies one filter selection.
    pub fn apply(&mut self, f: &Filter)
        ensures
            final(self)@ == apply_spec(old(self)@, *f),
    {
        match f.kind {
            FilterKind::Title => {
                if let FilterValue::Text(s) = &f.value {
                    self.title = urlencode(s.as_str());
                }
            },
            FilterKind::Genre => {
                let v = int_value_or(&f.value, -1);
                if v == 0 {
                    let id = get_tag_id(f.name.as_str());
                    self.excluded_tags.push(id);
                    assert(texts(self.excluded_tags@) =~= texts(old(self).excluded_tags@).push(tag_id_of(f.name@)));
                } else if v == 1 {
                    let id = get_tag_id(f.name.as_str());
                    self.included_tags.push(id);
                    assert(texts(self.included_tags@) =~= texts(old(self).included_tags@).push(tag_id_of(f.name@)));
                }
            },
            _ => {
                let name = f.name.as_str();
                if str_eq(name, "Tình trạng") {
                    let v = int_value_or(&f.value, -1);
                    self.completed = if v == 0 { -1 } else { v };
                } else if str_eq(name, "Số lượng chapter") {
                    self.chapter_count = chapter_threshold(int_value_or(&f.value, 0));
                } else if str_eq(name, "Sắp xếp theo") {
                    self.sort_by = sort_code(int_value_or(&f.value, 0));
                } else if str_eq(name, "Dành cho") {
                    let v = int_value_or(&f.value, -1);
                    self.gender = if v == 0 { -1 } else { v };
                }
            },
        }
    }
}

/// Folds the filter selections, in order, into one query intent.
pub fn normalize(filters: &Vec<Filter>) -> (r: QueryIntent)
    ensures
        r@ == normalize_spec(filters@),
{
    let mut intent = QueryIntent::new();
    let mut i: usize = 0;
    while i < filters.len()
        invariant
            i <= filters@.len(),
            intent@ == normalize_spec(filters@.subrange(0, i as int)),
        decreases filters@.len() - i,
    {
        proof {
            let pre = filters@.subrange(0, i + 1);
            assert(pre.drop_last() =~= filters@.subrange(0, i as int));
        }
        intent.apply(&filters[i]);
        i = i + 1;
    }
    assert(filters@.subrange(0, i as int) =~= filters@);
    intent
}

/// A filter of a kind or name that the site does not search on, or a genre
/// mark other than include (1) and exclude (0).
pub open spec fn ignored(f: Filter) -> bool {
    match f.kind {
        FilterKind::Title => !(f.value is Text),
        FilterKind::Genre => int_or(f.value, -1) != 0 && int_or(f.value, -1) != 1,
        _ => f.name@ != "Tình trạng"@ && f.name@ != "Số lượng chapter"@ && f.name@ != "Sắp xếp theo"@
            && f.name@ != "Dành cho"@,
    }
}

/// A filter that the site does not search on leaves the intent as it was.
pub proof fn lemma_ignored_filter_skipped(fs: Seq<Filter>, f: Filter)
    requires
        ignored(f),
    ensures
        normalize_spec(fs.push(f)) == normalize_spec(fs),
{
    assert(fs.push(f).drop_last() =~= fs);
    assert(fs.push(f).last() == f);
}

/// The single-valued field that a filter sets: 1 the title, 2 completion,
/// 3 the chapter count, 4 the sort order, 5 the audience; 0 for none.
pub open spec fn field_of(f: Filter) -> int {
    match f.kind {
        FilterKind::Title => if f.value is Text { 1 } else { 0 },
        FilterKind::Genre => 0,
        _ => {
            if f.name@ == "Tình trạng"@ {
                2
            } else if f.name@ == "Số lượng chapter"@ {
                3
            } else if f.name@ == "Sắp xếp theo"@ {
                4
            } else if f.name@ == "Dành cho"@ {
                5
            } else {
                0
            }
        },
    }
}

/// The value of a single-valued field.
pub enum FieldValue {
    Number(int),
    Text(Seq<char>),
}

/// The value of the single-valued field `x` (numbered as in `field_of`).
pub open spec fn field_value(iv: IntentView, x: int) -> FieldValue {
    if x == 1 {
        FieldValue::Text(iv.title)
    } else if x == 2 {
        FieldValue::Number(iv.completed)
    } else if x == 3 {
        FieldValue::Number(iv.chapter_count)
    } else if x == 4 {
        FieldValue::Number(iv.sort_by)
    } else {
        FieldValue::Number(iv.gender)
    }
}

/// No two filters of the sequence set the same single-valued field.
pub open spec fn one_setting_per_field(fs: Seq<Filter>) -> bool {
    forall|i: int, j: int|
        0 <= i < fs.len() && 0 <= j < fs.len() && #[trigger] field_of(fs[i]) != 0 && field_of(fs[i]) == #[trigger] field_of(fs[j]) ==> i == j
}

/// The genre filter includes the tag with the identifier.
pub open spec fn includes_tag(f: Filter, id: Seq<char>) -> bool {
    f.kind == FilterKind::Genre && int_or(f.value, -1) == 1 && tag_id_of(f.name@) == id
}

/// The genre filter excludes the tag with the identifier.
pub open spec fn excludes_tag(f: Filter, id: Seq<char>) -> bool {
    f.kind == FilterKind::Genre && int_or(f.value, -1) == 0 && tag_id_of(f.name@) == id
}

/// Two intents that agree on every single-valued field and hold the same
/// sets of included and excluded tags.
pub open spec fn same_search(a: IntentView, b: IntentView) -> bool {
    &&& a.title == b.title
    &&& a.completed == b.completed
    &&& a.chapter_count == b.chapter_count
    &&& a.sort_by == b.sort_by
    &&& a.gender == b.gender
    &&& a.included.to_set() == b.included.to_set()
    &&& a.excluded.to_set() == b.excluded.to_set()
}

proof fn lemma_field_after_apply(iv: IntentView, jv: IntentView, f: Filter, x: int)
    requires
        1 <= x <= 5,
    ensures
        field_of(f) != x ==> field_value(apply_spec(iv, f), x) == field_value(iv, x),
        field_of(f) == x ==> field_value(apply_spec(iv, f), x) == field_value(apply_spec(jv, f), x),
{
}

proof fn lemma_field_of_fold(fs: Seq<Filter>, x: int)
    requires
        1 <= x <= 5,
        one_setting_per_field(fs),
    ensures
        (forall|i: int| 0 <= i < fs.len() ==> field_of(#[trigger] fs[i]) != x) ==> field_value(normalize_spec(fs), x) == field_value(empty_intent(), x),
        forall|i: int| 0 <= i < fs.len() && field_of(#[trigger] fs[i]) == x ==> field_value(normalize_spec(fs), x) == field_value(apply_spec(empty_intent(), fs[i]), x),
    decreases fs.len(),
{
    if fs.len() > 0 {
        let pre = fs.drop_last();
        let f = fs.last();
        assert(one_setting_per_field(pre)) by {
            assert forall|i: int, j: int|
                0 <= i < pre.len() && 0 <= j < pre.len() && #[trigger] field_of(pre[i]) != 0 && field_of(pre[i]) == #[trigger] field_of(pre[j]) implies i == j by {
                assert(pre[i] == fs[i] && pre[j] == fs[j]);
            }
        }
        lemma_field_of_fold(pre, x);
        lemma_field_after_apply(normalize_spec(pre), empty_intent(), f, x);
        assert(fs[fs.len() - 1] == f);
        assert forall|i: int| 0 <= i < fs.len() && field_of(#[trigger] fs[i]) == x implies field_value(normalize_spec(fs), x) == field_value(apply_spec(empty_intent(), fs[i]), x) by {
            if i < fs.len() - 1 {
                assert(pre[i] == fs[i]);
                assert(field_of(f) != x);
            }
        }
        if forall|i: int| 0 <= i < fs.len() ==> field_of(#[trigger] fs[i]) != x {
            assert forall|i: int| 0 <= i < pre.len() implies field_of(#[trigger] pre[i]) != x by {
                assert(pre[i] == fs[i]);
            }
        }
    }
}

proof fn lemma_tags_of_fold(fs: Seq<Filter>, id: Seq<char>)
    ensures
        normalize_spec(fs).included.contains(id) <==> exists|i: int| 0 <= i < fs.len() && includes_tag(#[trigger] fs[i], id),
        normalize_spec(fs).excluded.contains(id) <==> exists|i: int| 0 <= i < fs.len() && excludes_tag(#[trigger] fs[i], id),
    decreases fs.len(),
{
    if fs.len() > 0 {
        let pre = fs.drop_last();
        let f = fs.last();
        lemma_tags_of_fold(pre, id);
        assert(fs[fs.len() - 1] == f);
        let a = normalize_spec(pre);
        let b = normalize_spec(fs);
        if exists|i: int| 0 <= i < pre.len() && includes_tag(#[trigger] pre[i], id) {
            let i = choose|i: int| 0 <= i < pre.len() && includes_tag(#[trigger] pre[i], id);
            assert(fs[i] == pre[i]);
            let k = choose|k: int| 0 <= k < a.included.len() && a.included[k] == id;
            assert(b.included[k] == id);
        }
        if exists|i: int| 0 <= i < pre.len() && excludes_tag(#[trigger] pre[i], id) {
            let i = choose|i: int| 0 <= i < pre.len() && excludes_tag(#[trigger] pre[i], id);
            assert(fs[i] == pre[i]);
            let k = choose|k: int| 0 <= k < a.excluded.len() && a.excluded[k] == id;
            assert(b.excluded[k] == id);
        }
        if exists|i: int| 0 <= i < fs.len() && includes_tag(#[trigger] fs[i], id) {
            let i = choose|i: int| 0 <= i < fs.len() && includes_tag(#[trigger] fs[i], id);
            if i < pre.len() {
                assert(pre[i] == fs[i]);
            } else {
                assert(b.included.last() == id);
            }
        }
        if exists|i: int| 0 <= i < fs.len() && excludes_tag(#[trigger] fs[i], id) {
            let i = choose|i: int| 0 <= i < fs.len() && excludes_tag(#[trigger] fs[i], id);
            if i < pre.len() {
                assert(pre[i] == fs[i]);
            } else {
                assert(b.excluded.last() == id);
            }
        }
        if b.included.contains(id) {
            let k = choose|k: int| 0 <= k < b.included.len() && b.included[k] == id;
            if k < a.included.len() {
                assert(a.included[k] == id);
            }
        }
        if b.excluded.contains(id) {
            let k = choose|k: int| 0 <= k < b.excluded.len() && b.excluded[k] == id;
            if k < a.excluded.len() {
                assert(a.excluded[k] == id);
            }
        }
    }
}

/// The order of the filter selections does not matter: two sequences that
/// hold the same selections, with no single-valued field set twice, give
/// the same search, with the same sets of included and excluded tags.
pub proof fn lemma_order_independent(fs: Seq<Filter>, gs: Seq<Filter>)
    requires
        fs.to_multiset() == gs.to_multiset(),
        one_setting_per_field(fs),
        one_setting_per_field(gs),
    ensures
        same_search(normalize_spec(fs), normalize_spec(gs)),
{
    broadcast use vstd::seq_lib::group_to_multiset_ensures;
    let a = normalize_spec(fs);
    let b = normalize_spec(gs);
    assert forall|x: int| 1 <= x <= 5 implies field_value(a, x) == field_value(b, x) by {
        lemma_field_of_fold(fs, x);
        lemma_field_of_fold(gs, x);
        if exists|i: int| 0 <= i < fs.len() && field_of(#[trigger] fs[i]) == x {
            let i = choose|i: int| 0 <= i < fs.len() && field_of(#[trigger] fs[i]) == x;
            assert(fs.contains(fs[i]));
            assert(fs.to_multiset().count(fs[i]) > 0);
            assert(gs.contains(fs[i]));
            let j = choose|j: int| 0 <= j < gs.len() && gs[j] == fs[i];
            assert(field_of(gs[j]) == x);
        } else if exists|j: int| 0 <= j < gs.len() && field_of(#[trigger] gs[j]) == x {
            let j = choose|j: int| 0 <= j < gs.len() && field_of(#[trigger] gs[j]) == x;
            assert(gs.contains(gs[j]));
            assert(gs.to_multiset().count(gs[j]) > 0);
            assert(fs.contains(gs[j]));
            let i = choose|i: int| 0 <= i < fs.len() && fs[i] == gs[j];
            assert(field_of(fs[i]) == x);
        }
    }
    assert(field_value(a, 1) == field_value(b, 1));
    assert(field_value(a, 2) == field_value(b, 2));
    assert(field_value(a, 3) == field_value(b, 3));
    assert(field_value(a, 4) == field_value(b, 4));
    assert(field_value(a, 5) == field_value(b, 5));
    assert forall|id: Seq<char>| a.included.contains(id) == b.included.contains(id) && a.excluded.contains(id) == b.excluded.contains(id) by {
        lemma_tags_of_fold(fs, id);
        lemma_tags_of_fold(gs, id);
        if exists|i: int| 0 <= i < fs.len() && includes_tag(#[trigger] fs[i], id) {
            let i = choose|i: int| 0 <= i < fs.len() && includes_tag(#[trigger] fs[i], id);
            assert(fs.contains(fs[i]) && fs.to_multiset().count(fs[i]) > 0);
            assert(gs.contains(fs[i]));
            let j = choose|j: int| 0 <= j < gs.len() && gs[j] == fs[i];
            assert(includes_tag(gs[j], id));
        }
        if exists|j: int| 0 <= j < gs.len() && includes_tag(#[trigger] gs[j], id) {
            let j = choose|j: int| 0 <= j < gs.len() && includes_tag(#[trigger] gs[j], id);
            assert(gs.contains(gs[j]) && gs.to_multiset().count(gs[j]) > 0);
            assert(fs.contains(gs[j]));
            let i = choose|i: int| 0 <= i < fs.len() && fs[i] == gs[j];
            assert(includes_tag(fs[i], id));
        }
        if exists|i: int| 0 <= i < fs.len() && excludes_tag(#[trigger] fs[i], id) {
            let i = choose|i: int| 0 <= i < fs.len() && excludes_tag(#[trigger] fs[i], id);
            assert(fs.contains(fs[i]) && fs.to_multiset().count(fs[i]) > 0);
            assert(gs.contains(fs[i]));
            let j = choose|j: int| 0 <= j < gs.len() && gs[j] == fs[i];
            assert(excludes_tag(gs[j], id));
        }
        if exists|j: int| 0 <= j < gs.len() && excludes_tag(#[trigger] gs[j], id) {
            let j = choose|j: int| 0 <= j < gs.len() && excludes_tag(#[trigger] gs[j], id);
            assert(gs.contains(gs[j]) && gs.to_multiset().count(gs[j]) > 0);
            assert(fs.contains(gs[j]));
            let i = choose|i: int| 0 <= i < fs.len() && fs[i] == gs[j];
            assert(excludes_tag(fs[i], id));
        }
    }
    assert(a.included.to_set() =~= b.included.to_set());
    assert(a.excluded.to_set() =~= b.excluded.to_set());
}

} // verus!
