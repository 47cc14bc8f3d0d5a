//! Reading a URL's query string back, and what a search URL's query holds.
use vstd::prelude::*;
use crate::filters::{apply_spec, normalize_spec, Filter, IntentView};
use crate::tables::tag_id_of;
use crate::search_url::{join, param_text, push_if, render_query, search_params, search_path, search_url_of};
use crate::text::{ascii_chars, decimal, int_text, is_encoded_byte, lemma_encoded_bytes, percent_encode, url_encoded};
use vstd::utf8::encode_utf8;

verus! {

/// The text after the first `c`; empty when `c` does not occur.
pub open spec fn after_first(s: Seq<char>, c: char) -> Seq<char>
    decreases s.len(),
{
    if s.len() == 0 {
        Seq::empty()
    } else if s[0] == c {
        s.drop_first()
    } else {
        after_first(s.drop_first(), c)
    }
}

/// The text before the first `c`; all of it when `c` does not occur.
pub open spec fn before_first(s: Seq<char>, c: char) -> Seq<char>
    decreases s.len(),
{
    if s.len() == 0 {
        Seq::empty()
    } else if s[0] == c {
        Seq::empty()
    } else {
        seq![s[0]] + before_first(s.drop_first(), c)
    }
}

/// The pieces of `s` between occurrences of `d`; one piece when there is none.
pub open spec fn split(s: Seq<char>, d: char) -> Seq<Seq<char>>
    decreases s.len(),
{
    if s.len() == 0 {
        seq![Seq::empty()]
    } else {
        let r = split(s.drop_last(), d);
        if s.last() == d {
            r.push(Seq::empty())
        } else {
            r.update(r.len() - 1, r.last().push(s.last()))
        }
    }
}

/// The parameters of a query string: its pieces between `&`, each cut at
/// its first `=` into key and value.
pub open spec fn parse_query(q: Seq<char>) -> Seq<(Seq<char>, Seq<char>)> {
    split(q, '&').map_values(|seg: Seq<char>| (before_first(seg, '='), after_first(seg, '=')))
}

/// The value of the last parameter with the key, if any.
pub open spec fn lookup(ps: Seq<(Seq<char>, Seq<char>)>, key: Seq<char>) -> Option<Seq<char>>
    decreases ps.len(),
{
    if ps.len() == 0 {
        None
    } else if ps.last().0 == key {
        Some(ps.last().1)
    } else {
        lookup(ps.drop_last(), key)
    }
}

/// The value of a query parameter of a URL, if it carries one.
pub open spec fn query_param(url: Seq<char>, key: Seq<char>) -> Option<Seq<char>> {
    lookup(parse_query(after_first(url, '?')), key)
}

/// A list parameter of a URL, read as its pieces between commas; absent
/// means empty.
pub open spec fn query_list(url: Seq<char>, key: Seq<char>) -> Seq<Seq<char>> {
    match query_param(url, key) {
        Some(v) => split(v, ','),
        None => Seq::empty(),
    }
}

/// A text parameter of a URL; absent means empty.
pub open spec fn query_text(url: Seq<char>, key: Seq<char>) -> Seq<char> {
    match query_param(url, key) {
        Some(v) => v,
        None => Seq::empty(),
    }
}

/// An intent whose title holds no `&` and whose tag identifiers hold
/// neither `&` nor `,`, so that its query string can be read back.
pub open spec fn intent_wf(iv: IntentView) -> bool {
    &&& !iv.title.contains('&')
    &&& forall|i: int| 0 <= i < iv.included.len() ==> !(#[trigger] iv.included[i]).contains('&') && !iv.included[i].contains(',')
    &&& forall|i: int| 0 <= i < iv.excluded.len() ==> !(#[trigger] iv.excluded[i]).contains('&') && !iv.excluded[i].contains(',')
}

proof fn lemma_split_len(s: Seq<char>, d: char)
    ensures
        split(s, d).len() >= 1,
    decreases s.len(),
{
    if s.len() > 0 {
        lemma_split_len(s.drop_last(), d);
    }
}

proof fn lemma_split_none(b: Seq<char>, d: char)
    requires
        !b.contains(d),
    ensures
        split(b, d) == seq![b],
    decreases b.len(),
{
    if b.len() > 0 {
        let b0 = b.drop_last();
        assert(!b0.contains(d)) by {
            if b0.contains(d) {
                let i = choose|i: int| 0 <= i < b0.len() && b0[i] == d;
                assert(b[i] == d);
            }
        }
        lemma_split_none(b0, d);
        assert(b.last() != d) by {
            assert(b[b.len() - 1] == b.last());
        }
        assert(b0.push(b.last()) =~= b);
        assert(split(b, d) =~= seq![b]);
    } else {
        assert(b =~= Seq::<char>::empty());
    }
}

proof fn lemma_split_after(a: Seq<char>, b: Seq<char>, d: char)
    requires
        !b.contains(d),
    ensures
        split(a.push(d) + b, d) == split(a, d).push(b),
    decreases b.len(),
{
    lemma_split_len(a, d);
    if b.len() == 0 {
        assert(a.push(d) + b =~= a.push(d));
        assert(a.push(d).drop_last() =~= a);
        assert(b =~= Seq::<char>::empty());
    } else {
        let b0 = b.drop_last();
        assert(!b0.contains(d)) by {
            if b0.contains(d) {
                let i = choose|i: int| 0 <= i < b0.len() && b0[i] == d;
                assert(b[i] == d);
            }
        }
        lemma_split_after(a, b0, d);
        let s = a.push(d) + b;
        assert(s.drop_last() =~= a.push(d) + b0);
        assert(s.last() == b.last());
        assert(b.last() != d) by {
            assert(b[b.len() - 1] == b.last());
        }
        assert(b0.push(b.last()) =~= b);
        assert(split(s, d) =~= split(a, d).push(b));
    }
}

/// Splitting a joined sequence at the delimiter gives the sequence back,
/// when no element holds the delimiter.
pub proof fn lemma_split_join(xs: Seq<Seq<char>>, d: char)
    requires
        xs.len() >= 1,
        forall|i: int| 0 <= i < xs.len() ==> !(#[trigger] xs[i]).contains(d),
    ensures
        split(join(xs, d), d) == xs,
    decreases xs.len(),
{
    if xs.len() == 1 {
        lemma_split_none(xs[0], d);
        assert(xs =~= seq![xs[0]]);
    } else {
        let ys = xs.drop_last();
        assert forall|i: int| 0 <= i < ys.len() implies !(#[trigger] ys[i]).contains(d) by {
            assert(ys[i] == xs[i]);
        }
        lemma_split_join(ys, d);
        assert(!xs.last().contains(d)) by {
            assert(xs[xs.len() - 1] == xs.last());
        }
        lemma_split_after(join(ys, d), xs.last(), d);
        assert(ys.push(xs.last()) =~= xs);
    }
}

proof fn lemma_cut_param(k: Seq<char>, v: Seq<char>)
    requires
        !k.contains('='),
    ensures
        before_first(k + seq!['='] + v, '=') == k,
        after_first(k + seq!['='] + v, '=') == v,
    decreases k.len(),
{
    let s = k + seq!['='] + v;
    if k.len() == 0 {
        assert(s[0] == '=');
        assert(s.drop_first() =~= v);
    } else {
        let k0 = k.drop_first();
        assert(!k0.contains('=')) by {
            if k0.contains('=') {
                let i = choose|i: int| 0 <= i < k0.len() && k0[i] == '=';
                assert(k[i + 1] == '=');
            }
        }
        lemma_cut_param(k0, v);
        assert(k[0] != '=');
        assert(s.drop_first() =~= k0 + seq!['='] + v);
        assert(seq![k[0]] + k0 =~= k);
    }
}

proof fn lemma_after_prefix(a: Seq<char>, b: Seq<char>, c: char)
    requires
        !a.contains(c),
    ensures
        after_first(a + b, c) == after_first(b, c),
    decreases a.len(),
{
    if a.len() == 0 {
        assert(a + b =~= b);
    } else {
        let a0 = a.drop_first();
        assert(!a0.contains(c)) by {
            if a0.contains(c) {
                let i = choose|i: int| 0 <= i < a0.len() && a0[i] == c;
                assert(a[i + 1] == c);
            }
        }
        lemma_after_prefix(a0, b, c);
        assert(a[0] != c);
        assert((a + b).drop_first() =~= a0 + b);
    }
}

/// Parameters that a query string carries without ambiguity: keys hold
/// neither `=` nor `&`, values hold no `&`.
pub open spec fn params_plain(ps: Seq<(Seq<char>, Seq<char>)>) -> bool {
    forall|i: int| 0 <= i < ps.len() ==> !(#[trigger] ps[i]).0.contains('=') && !ps[i].0.contains('&') && !ps[i].1.contains('&')
}

/// Parsing a rendered query string gives its parameters back.
pub proof fn lemma_parse_render(ps: Seq<(Seq<char>, Seq<char>)>)
    requires
        ps.len() >= 1,
        params_plain(ps),
    ensures
        parse_query(render_query(ps)) == ps,
{
    let texts = ps.map_values(|p: (Seq<char>, Seq<char>)| param_text(p));
    assert forall|i: int| 0 <= i < texts.len() implies !(#[trigger] texts[i]).contains('&') by {
        let t = texts[i];
        assert(t == ps[i].0 + seq!['='] + ps[i].1);
        if t.contains('&') {
            let j = choose|j: int| 0 <= j < t.len() && t[j] == '&';
            if j < ps[i].0.len() {
                assert(ps[i].0[j] == '&');
            } else if j > ps[i].0.len() {
                assert(ps[i].1[j - ps[i].0.len() - 1] == '&');
            }
        }
    }
    lemma_split_join(texts, '&');
    let parsed = parse_query(render_query(ps));
    assert forall|i: int| 0 <= i < ps.len() implies parsed[i] == ps[i] by {
        lemma_cut_param(ps[i].0, ps[i].1);
    }
    assert(parsed =~= ps);
}

proof fn lemma_decimal_digits(n: nat)
    ensures
        forall|i: int| 0 <= i < decimal(n).len() ==> 48 <= #[trigger] decimal(n)[i] <= 57,
    decreases n,
{
    if n >= 10 {
        lemma_decimal_digits(n / 10);
        let d = decimal(n / 10);
        assert(n % 10 < 10);
        assert forall|i: int| 0 <= i < decimal(n).len() implies 48 <= #[trigger] decimal(n)[i] <= 57 by {
            if i < d.len() {
                assert(decimal(n)[i] == d[i]);
            }
        }
    }
}

proof fn lemma_int_text_plain(n: int)
    ensures
        !int_text(n).contains('&'),
{
    let m: nat = if n < 0 { (-n) as nat } else { n as nat };
    lemma_decimal_digits(m);
    let t = int_text(n);
    if t.contains('&') {
        let j = choose|j: int| 0 <= j < t.len() && t[j] == '&';
        let a = ascii_chars(decimal(m));
        if n < 0 {
            assert(t == seq!['-'] + a);
            if j > 0 {
                assert(a[j - 1] == decimal(m)[j - 1] as char);
            }
        } else {
            assert(a[j] == decimal(m)[j] as char);
        }
    }
}

proof fn lemma_join_excludes(xs: Seq<Seq<char>>, d: char, c: char)
    requires
        d != c,
        forall|i: int| 0 <= i < xs.len() ==> !(#[trigger] xs[i]).contains(c),
    ensures
        !join(xs, d).contains(c),
    decreases xs.len(),
{
    if xs.len() == 1 {
        assert(!xs[0].contains(c));
    } else if xs.len() > 1 {
        let ys = xs.drop_last();
        assert forall|i: int| 0 <= i < ys.len() implies !(#[trigger] ys[i]).contains(c) by {
            assert(ys[i] == xs[i]);
        }
        lemma_join_excludes(ys, d, c);
        let l = xs.last();
        assert(!l.contains(c)) by {
            assert(xs[xs.len() - 1] == l);
        }
        let j0 = join(ys, d);
        let t = join(xs, d);
        if t.contains(c) {
            let k = choose|k: int| 0 <= k < t.len() && t[k] == c;
            if k < j0.len() {
                assert(j0[k] == c);
            } else if k > j0.len() {
                assert(l[k - j0.len() - 1] == c);
            }
        }
    }
}

proof fn lemma_lookup_push_if(ps: Seq<(Seq<char>, Seq<char>)>, cond: bool, p: (Seq<char>, Seq<char>), key: Seq<char>)
    ensures
        lookup(push_if(ps, cond, p), key) == (if cond && p.0 == key { Some(p.1) } else { lookup(ps, key) }),
{
    if cond {
        assert(ps.push(p).drop_last() =~= ps);
    }
}

/// The keys of the search parameters, one per field.
pub open spec fn search_keys() -> Seq<Seq<char>> {
    seq!["page"@, "keyword"@, "genres"@, "notgenres"@, "gender"@, "status"@, "minchapter"@, "sort"@]
}

proof fn lemma_search_keys()
    ensures
        forall|i: int, j: int| 0 <= i < 8 && 0 <= j < 8 && i != j ==> search_keys()[i] != search_keys()[j],
        forall|i: int| 0 <= i < 8 ==> !(#[trigger] search_keys()[i]).contains('=') && !search_keys()[i].contains('&'),
{
    reveal_strlit("page");
    reveal_strlit("keyword");
    reveal_strlit("genres");
    reveal_strlit("notgenres");
    reveal_strlit("gender");
    reveal_strlit("status");
    reveal_strlit("minchapter");
    reveal_strlit("sort");
    let k = search_keys();
    assert(k[0] == "page"@ && k[1] == "keyword"@ && k[2] == "genres"@ && k[3] == "notgenres"@);
    assert(k[4] == "gender"@ && k[5] == "status"@ && k[6] == "minchapter"@ && k[7] == "sort"@);
    assert("genres"@[3] != "gender"@[3]);
    assert("genres"@[0] != "status"@[0]);
    assert("gender"@[0] != "status"@[0]);
    assert("page"@[0] != "sort"@[0]);
    assert forall|i: int| 0 <= i < 8 implies !(#[trigger] k[i]).contains('=') && !k[i].contains('&') by {
        if k[i].contains('=') || k[i].contains('&') {
            let j = choose|j: int| 0 <= j < k[i].len() && (k[i][j] == '=' || k[i][j] == '&');
        }
    }
}

proof fn lemma_search_params_plain(iv: IntentView, page: int)
    requires
        intent_wf(iv),
    ensures
        search_params(iv, page).len() >= 1,
        params_plain(search_params(iv, page)),
{
    lemma_search_keys();
    let k = search_keys();
    lemma_int_text_plain(page);
    lemma_int_text_plain(iv.gender);
    lemma_int_text_plain(iv.completed);
    lemma_int_text_plain(iv.chapter_count);
    lemma_int_text_plain(iv.sort_by);
    lemma_join_excludes(iv.included, ',', '&');
    lemma_join_excludes(iv.excluded, ',', '&');
    let ps = search_params(iv, page);
    assert forall|i: int| 0 <= i < ps.len() implies !(#[trigger] ps[i]).0.contains('=') && !ps[i].0.contains('&') && !ps[i].1.contains('&') by {
        assert(exists|j: int| 0 <= j < 8 && ps[i].0 == k[j]);
    }
}

proof fn lemma_search_query(host: Seq<char>, iv: IntentView, page: int)
    requires
        !host.contains('?'),
    ensures
        after_first(search_url_of(host, iv, page), '?') == render_query(search_params(iv, page)),
{
    reveal_strlit("/tim-truyen-nang-cao?");
    let r = render_query(search_params(iv, page));
    let path = search_path();
    let stem = path.drop_last();
    assert(!stem.contains('?')) by {
        if stem.contains('?') {
            let j = choose|j: int| 0 <= j < stem.len() && stem[j] == '?';
        }
    }
    assert(search_url_of(host, iv, page) =~= host + (stem + (seq!['?'] + r)));
    lemma_after_prefix(host, stem + (seq!['?'] + r), '?');
    lemma_after_prefix(stem, seq!['?'] + r, '?');
    assert((seq!['?'] + r).drop_first() =~= r);
}

/// The search parameters as the query string of the built URL gives them
/// back.
proof fn lemma_search_lookup(host: Seq<char>, iv: IntentView, page: int)
    requires
        !host.contains('?'),
        intent_wf(iv),
    ensures
        query_param(search_url_of(host, iv, page), "keyword"@) == (if iv.title.len() > 0 { Some(iv.title) } else { None::<Seq<char>> }),
        query_param(search_url_of(host, iv, page), "genres"@) == (if iv.included.len() > 0 { Some(join(iv.included, ',')) } else { None::<Seq<char>> }),
        query_param(search_url_of(host, iv, page), "notgenres"@) == (if iv.excluded.len() > 0 { Some(join(iv.excluded, ',')) } else { None::<Seq<char>> }),
        query_param(search_url_of(host, iv, page), "gender"@) == (if iv.gender != -1 { Some(int_text(iv.gender)) } else { None::<Seq<char>> }),
        query_param(search_url_of(host, iv, page), "status"@) == (if iv.completed != -1 { Some(int_text(iv.completed)) } else { None::<Seq<char>> }),
        query_param(search_url_of(host, iv, page), "minchapter"@) == (if iv.chapter_count != 0 { Some(int_text(iv.chapter_count)) } else { None::<Seq<char>> }),
{
    lemma_search_query(host, iv, page);
    lemma_search_params_plain(iv, page);
    lemma_parse_render(search_params(iv, page));
    lemma_search_keys();
    let k = search_keys();
    assert(k[0] == "page"@ && k[1] == "keyword"@ && k[2] == "genres"@ && k[3] == "notgenres"@);
    assert(k[4] == "gender"@ && k[5] == "status"@ && k[6] == "minchapter"@ && k[7] == "sort"@);
    let p0 = seq![("page"@, int_text(page))];
    let p1 = push_if(p0, iv.title.len() > 0, ("keyword"@, iv.title));
    let p2 = push_if(p1, iv.included.len() > 0, ("genres"@, join(iv.included, ',')));
    let p3 = push_if(p2, iv.excluded.len() > 0, ("notgenres"@, join(iv.excluded, ',')));
    let p4 = push_if(p3, iv.gender != -1, ("gender"@, int_text(iv.gender)));
    let p5 = push_if(p4, iv.completed != -1, ("status"@, int_text(iv.completed)));
    let p6 = push_if(p5, iv.chapter_count != 0, ("minchapter"@, int_text(iv.chapter_count)));
    let p7 = push_if(p6, true, ("sort"@, int_text(iv.sort_by)));
    assert(p7 == search_params(iv, page));
    assert forall|key: Seq<char>| k.contains(key) implies lookup(p7, key) == (
        if key == "keyword"@ && iv.title.len() > 0 { Some(iv.title) }
        else if key == "genres"@ && iv.included.len() > 0 { Some(join(iv.included, ',')) }
        else if key == "notgenres"@ && iv.excluded.len() > 0 { Some(join(iv.excluded, ',')) }
        else if key == "gender"@ && iv.gender != -1 { Some(int_text(iv.gender)) }
        else if key == "status"@ && iv.completed != -1 { Some(int_text(iv.completed)) }
        else if key == "minchapter"@ && iv.chapter_count != 0 { Some(int_text(iv.chapter_count)) }
        else if key == "sort"@ { Some(int_text(iv.sort_by)) }
        else if key == "page"@ { Some(int_text(page)) }
        else { None }
    ) by {
        assert(p0 =~= Seq::<(Seq<char>, Seq<char>)>::empty().push(("page"@, int_text(page))));
        lemma_lookup_push_if(Seq::empty(), true, ("page"@, int_text(page)), key);
        assert(push_if(Seq::empty(), true, ("page"@, int_text(page))) == p0);
        lemma_lookup_push_if(p0, iv.title.len() > 0, ("keyword"@, iv.title), key);
        lemma_lookup_push_if(p1, iv.included.len() > 0, ("genres"@, join(iv.included, ',')), key);
        lemma_lookup_push_if(p2, iv.excluded.len() > 0, ("notgenres"@, join(iv.excluded, ',')), key);
        lemma_lookup_push_if(p3, iv.gender != -1, ("gender"@, int_text(iv.gender)), key);
        lemma_lookup_push_if(p4, iv.completed != -1, ("status"@, int_text(iv.completed)), key);
        lemma_lookup_push_if(p5, iv.chapter_count != 0, ("minchapter"@, int_text(iv.chapter_count)), key);
        lemma_lookup_push_if(p6, true, ("sort"@, int_text(iv.sort_by)), key);
    }
    assert(k.contains(k[1]) && k.contains(k[2]) && k.contains(k[3]));
    assert(k.contains(k[4]) && k.contains(k[5]) && k.contains(k[6]));
}

/// A field left at its unset value puts no parameter into the search URL:
/// no `keyword` for an empty title, no `genres` or `notgenres` for an empty
/// tag list, no `gender` or `status` for -1, no `minchapter` for 0.
pub proof fn lemma_unset_fields_omitted(host: Seq<char>, iv: IntentView, page: int)
    requires
        !host.contains('?'),
        intent_wf(iv),
    ensures
        iv.title.len() == 0 ==> query_param(search_url_of(host, iv, page), "keyword"@) is None,
        iv.included.len() == 0 ==> query_param(search_url_of(host, iv, page), "genres"@) is None,
        iv.excluded.len() == 0 ==> query_param(search_url_of(host, iv, page), "notgenres"@) is None,
        iv.gender == -1 ==> query_param(search_url_of(host, iv, page), "gender"@) is None,
        iv.completed == -1 ==> query_param(search_url_of(host, iv, page), "status"@) is None,
        iv.chapter_count == 0 ==> query_param(search_url_of(host, iv, page), "minchapter"@) is None,
{
    lemma_search_lookup(host, iv, page);
}

/// Reading the built URL's query string back gives the included and
/// excluded tag identifiers and the title exactly.
pub proof fn lemma_search_url_round_trip(host: Seq<char>, iv: IntentView, page: int)
    requires
        !host.contains('?'),
        intent_wf(iv),
    ensures
        query_list(search_url_of(host, iv, page), "genres"@) == iv.included,
        query_list(search_url_of(host, iv, page), "notgenres"@) == iv.excluded,
        query_text(search_url_of(host, iv, page), "keyword"@) == iv.title,
{
    lemma_search_lookup(host, iv, page);
    if iv.included.len() > 0 {
        lemma_split_join(iv.included, ',');
    } else {
        assert(iv.included =~= Seq::<Seq<char>>::empty());
    }
    if iv.excluded.len() > 0 {
        lemma_split_join(iv.excluded, ',');
    } else {
        assert(iv.excluded =~= Seq::<Seq<char>>::empty());
    }
    if iv.title.len() == 0 {
        assert(iv.title =~= Seq::<char>::empty());
    }
}

proof fn lemma_tag_id_plain(name: Seq<char>)
    ensures
        !tag_id_of(name).contains('&'),
        !tag_id_of(name).contains(','),
{
    reveal_strlit("1");
    reveal_strlit("2");
    reveal_strlit("3");
    reveal_strlit("4");
    reveal_strlit("5");
    reveal_strlit("6");
    reveal_strlit("7");
    reveal_strlit("8");
    reveal_strlit("9");
    reveal_strlit("10");
    reveal_strlit("11");
    reveal_strlit("12");
    reveal_strlit("13");
    reveal_strlit("14");
    reveal_strlit("15");
    reveal_strlit("16");
    reveal_strlit("17");
    reveal_strlit("18");
    reveal_strlit("20");
    reveal_strlit("21");
    reveal_strlit("23");
    reveal_strlit("24");
    reveal_strlit("25");
    reveal_strlit("26");
    reveal_strlit("27");
    reveal_strlit("28");
    reveal_strlit("30");
    reveal_strlit("32");
    reveal_strlit("33");
    reveal_strlit("34");
    reveal_strlit("35");
    reveal_strlit("36");
    reveal_strlit("37");
    reveal_strlit("38");
    reveal_strlit("39");
    reveal_strlit("40");
    reveal_strlit("41");
    reveal_strlit("42");
    reveal_strlit("43");
    reveal_strlit("44");
    reveal_strlit("45");
    reveal_strlit("46");
    reveal_strlit("47");
    reveal_strlit("48");
    reveal_strlit("49");
    reveal_strlit("50");
    reveal_strlit("51");
    reveal_strlit("52");
    reveal_strlit("53");
    reveal_strlit("54");
    reveal_strlit("55");
    reveal_strlit("56");
    let t = tag_id_of(name);
    if t.contains('&') || t.contains(',') {
        let j = choose|j: int| 0 <= j < t.len() && (t[j] == '&' || t[j] == ',');
    }
}

proof fn lemma_url_encoded_plain(s: Seq<char>)
    ensures
        !url_encoded(s).contains('&'),
{
    let b = percent_encode(encode_utf8(s));
    lemma_encoded_bytes(encode_utf8(s));
    let t = url_encoded(s);
    if t.contains('&') {
        let j = choose|j: int| 0 <= j < t.len() && t[j] == '&';
        assert(t[j] == b[j] as char);
        assert(is_encoded_byte(b[j]));
    }
}

/// Every intent that filter selections fold into can be read back from its
/// search URL: its title is percent-encoded and its tag identifiers come
/// from the tag table.
pub proof fn lemma_normalized_wf(fs: Seq<Filter>)
    ensures
        intent_wf(normalize_spec(fs)),
    decreases fs.len(),
{
    if fs.len() > 0 {
        let pre = normalize_spec(fs.drop_last());
        let f = fs.last();
        lemma_normalized_wf(fs.drop_last());
        lemma_tag_id_plain(f.name@);
        if let crate::filters::FilterValue::Text(t) = f.value {
            lemma_url_encoded_plain(t@);
        }
        let r = apply_spec(pre, f);
        assert forall|i: int| 0 <= i < r.included.len() implies !(#[trigger] r.included[i]).contains('&') && !r.included[i].contains(',') by {
            if i < pre.included.len() {
                assert(r.included[i] == pre.included[i]);
            }
        }
        assert forall|i: int| 0 <= i < r.excluded.len() implies !(#[trigger] r.excluded[i]).contains('&') && !r.excluded[i].contains(',') by {
            if i < pre.excluded.len() {
                assert(r.excluded[i] == pre.excluded[i]);
            }
        }
    }
}

} // verus!
