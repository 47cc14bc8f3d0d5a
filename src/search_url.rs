//! Building the catalog search URL from a query intent.
use vstd::prelude::*;
use crate::filters::{normalize, normalize_spec, Filter, IntentView, QueryIntent, texts};
use crate::text::{int_text, int_to_text};

verus! {

/// The site that the catalog is searched on.
pub const BASE_URL: &'static str = "https://www.nettruyenco.com";

/// The text of the sequence, with `d` between neighbours.
pub open spec fn join(xs: Seq<Seq<char>>, d: char) -> Seq<char>
    decreases xs.len(),
{
    if xs.len() == 0 {
        Seq::empty()
    } else if xs.len() == 1 {
        xs[0]
    } else {
        join(xs.drop_last(), d).push(d) + xs.last()
    }
}

/// One query parameter, `key=value`.
pub open spec fn param_text(p: (Seq<char>, Seq<char>)) -> Seq<char> {
    p.0 + seq!['='] + p.1
}

/// A query string: its parameters, joined by `&`.
pub open spec fn render_query(ps: Seq<(Seq<char>, Seq<char>)>) -> Seq<char> {
    join(ps.map_values(|p: (Seq<char>, Seq<char>)| param_text(p)), '&')
}

/// The parameters with `p` appended when `cond` holds.
pub open spec fn push_if(ps: Seq<(Seq<char>, Seq<char>)>, cond: bool, p: (Seq<char>, Seq<char>)) -> Seq<(Seq<char>, Seq<char>)> {
    if cond {
        ps.push(p)
    } else {
        ps
    }
}

/// The parameters of a search, in order. Fields left unset are left out:
/// an empty title or tag list, a gender or completion of -1, a chapter count
/// of 0.
pub open spec fn search_params(iv: IntentView, page: int) -> Seq<(Seq<char>, Seq<char>)> {
    let p0 = seq![("page"@, int_text(page))];
    let p1 = push_if(p0, iv.title.len() > 0, ("keyword"@, iv.title));
    let p2 = push_if(p1, iv.included.len() > 0, ("genres"@, join(iv.included, ',')));
    let p3 = push_if(p2, iv.excluded.len() > 0, ("notgenres"@, join(iv.excluded, ',')));
    let p4 = push_if(p3, iv.gender != -1, ("gender"@, int_text(iv.gender)));
    let p5 = push_if(p4, iv.completed != -1, ("status"@, int_text(iv.completed)));
    let p6 = push_if(p5, iv.chapter_count != 0, ("minchapter"@, int_text(iv.chapter_count)));
    p6.push(("sort"@, int_text(iv.sort_by)))
}

/// The path of the advanced search, up to its query string.
pub open spec fn search_path() -> Seq<char> {
    "/tim-truyen-nang-cao?"@
}

/// The search URL for an intent and a 1-based page on a host.
pub open spec fn search_url_of(host: Seq<char>, iv: IntentView, page: int) -> Seq<char> {
    host + search_path() + render_query(search_params(iv, page))
}

proof fn lemma_render_push(ps: Seq<(Seq<char>, Seq<char>)>, p: (Seq<char>, Seq<char>))
    requires
        ps.len() > 0,
    ensures
        render_query(ps.push(p)) == render_query(ps).push('&') + param_text(p),
{
    let f = |q: (Seq<char>, Seq<char>)| param_text(q);
    assert(ps.push(p).map_values(f).drop_last() =~= ps.map_values(f));
    assert(ps.push(p).map_values(f).last() == param_text(p));
}

/// Appends `&key=value`.
fn push_param(url: &mut String, key: &str, value: &str)
    ensures
        final(url)@ == old(url)@.push('&') + param_text((key@, value@)),
{
    url.append("&");
    url.append(key);
    url.append("=");
    url.append(value);
    proof {
        reveal_strlit("&");
        reveal_strlit("=");
        assert(final(url)@ =~= old(url)@.push('&') + param_text((key@, value@)));
    }
}

/// The strings joined by `,`.
fn join_ids(ids: &Vec<String>) -> (r: String)
    ensures
        r@ == join(texts(ids@), ','),
{
    let mut out = String::new();
    let mut i: usize = 0;
    while i < ids.len()
        invariant
            i <= ids@.len(),
            out@ == join(texts(ids@.subrange(0, i as int)), ','),
        decreases ids@.len() - i,
    {
        let ghost prev = out@;
        if i > 0 {
            out.append(",");
        }
        out.append(ids[i].as_str());
        proof {
            reveal_strlit(",");
            let xs = texts(ids@.subrange(0, i + 1));
            assert(xs.drop_last() =~= texts(ids@.subrange(0, i as int)));
            assert(xs.last() == ids@[i as int]@);
            if i == 0 {
                assert(out@ =~= xs[0]);
            } else {
                assert(out@ =~= prev.push(',') + xs.last());
            }
        }
        i = i + 1;
    }
    assert(ids@.subrange(0, i as int) =~= ids@);
    out
}

/// Appends `&key=value` when `cond` holds.
fn push_param_if(
    url: &mut String,
    prefix: Ghost<Seq<char>>,
    ps: Ghost<Seq<(Seq<char>, Seq<char>)>>,
    cond: bool,
    key: &str,
    value: &str,
)
    requires
        ps@.len() > 0,
        old(url)@ == prefix@ + render_query(ps@),
    ensures
        final(url)@ == prefix@ + render_query(push_if(ps@, cond, (key@, value@))),
{
    if cond {
        push_param(url, key, value);
        proof {
            lemma_render_push(ps@, (key@, value@));
            assert(final(url)@ =~= prefix@ + render_query(push_if(ps@, cond, (key@, value@))));
        }
    }
}

/// Builds the search URL for an intent and a 1-based page on a host.
pub fn get_search_url(host: &str, intent: &QueryIntent, page: i32) -> (r: String)
    ensures
        r@ == search_url_of(host@, intent@, page as int),
{
    let ghost iv = intent@;
    let mut url = host.to_owned();
    url.append("/tim-truyen-nang-cao?page=");
    let page_text = int_to_text(page as i64);
    url.append(page_text.as_str());
    let ghost prefix = host@ + search_path();
    let ghost p0 = seq![("page"@, int_text(page as int))];
    proof {
        reveal_strlit("/tim-truyen-nang-cao?page=");
        reveal_strlit("/tim-truyen-nang-cao?");
        reveal_strlit("page");
        let m = p0.map_values(|p: (Seq<char>, Seq<char>)| param_text(p));
        assert(m.len() == 1);
        assert(render_query(p0) == m[0]);
        assert(url@ =~= prefix + render_query(p0));
    }
    let title = intent.title.as_str();
    push_param_if(&mut url, Ghost(prefix), Ghost(p0), !title.is_empty(), "keyword", title);
    let ghost p1 = push_if(p0, iv.title.len() > 0, ("keyword"@, iv.title));
    let included = join_ids(&intent.included_tags);
    push_param_if(&mut url, Ghost(prefix), Ghost(p1), intent.included_tags.len() > 0, "genres", included.as_str());
    let ghost p2 = push_if(p1, iv.included.len() > 0, ("genres"@, join(iv.included, ',')));
    let excluded = join_ids(&intent.excluded_tags);
    push_param_if(&mut url, Ghost(prefix), Ghost(p2), intent.excluded_tags.len() > 0, "notgenres", excluded.as_str());
    let ghost p3 = push_if(p2, iv.excluded.len() > 0, ("notgenres"@, join(iv.excluded, ',')));
    let gender = int_to_text(intent.gender);
    push_param_if(&mut url, Ghost(prefix), Ghost(p3), intent.gender != -1, "gender", gender.as_str());
    let ghost p4 = push_if(p3, iv.gender != -1, ("gender"@, int_text(iv.gender)));
    let completed = int_to_text(intent.completed);
    push_param_if(&mut url, Ghost(prefix), Ghost(p4), intent.completed != -1, "status", completed.as_str());
    let ghost p5 = push_if(p4, iv.completed != -1, ("status"@, int_text(iv.completed)));
    let chapters = int_to_text(intent.chapter_count as i64);
    push_param_if(&mut url, Ghost(prefix), Ghost(p5), intent.chapter_count != 0, "minchapter", chapters.as_str());
    let ghost p6 = push_if(p5, iv.chapter_count != 0, ("minchapter"@, int_text(iv.chapter_count)));
    let sort = int_to_text(intent.sort_by as i64);
    push_param_if(&mut url, Ghost(prefix), Ghost(p6), true, "sort", sort.as_str());
    proof {
        assert(push_if(p6, true, ("sort"@, int_text(iv.sort_by))) == search_params(iv, page as int));
    }
    url
}

/// The search URL for a page of the catalog filtered by the host's
/// selections, on the site's own host.
pub fn manga_list_url(filters: &Vec<Filter>, page: i32) -> (r: String)
    ensures
        r@ == search_url_of(BASE_URL@, normalize_spec(filters@), page as int),
{
    let intent = normalize(filters);
    get_search_url(BASE_URL, &intent, page)
}

} // verus!
