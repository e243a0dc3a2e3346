//! The release catalogue as the server describes it, and the bodies of the
//! requests that ask for it.
use vstd::prelude::*;
use crate::text::{decimal, lemma_decimal_injective, push_decimal};

verus! {

/// Opening and ending intervals of an episode, in seconds.
pub struct Skips {
    pub ending: Vec<u32>,
    pub opening: Vec<u32>,
}

/// One episode of a release, with its sources in three qualities.
pub struct PlaylistItem {
    pub name: Option<String>,
    pub title: String,
    pub skips: Skips,
    pub sd: Option<String>,
    pub hd: Option<String>,
    pub fullhd: Option<String>,
}

/// A release: its localized and original names, its id, its episodes and
/// the series counter the server reports.
pub struct Title {
    pub names: [String; 2],
    pub id: u32,
    pub playlist: Vec<PlaylistItem>,
    pub series: Option<String>,
}

/// The two names of a release.
pub struct Name {
    pub ru: String,
    pub en: String,
}

/// The page of a listing and the number of pages.
#[allow(non_snake_case)]
#[derive(Clone, Copy, Debug, PartialEq, Eq)]
pub struct Pagination {
    pub page: u32,
    pub perPage: u32,
    pub allPages: u32,
}

/// The payload of a listing.
pub struct Data {
    pub items: Vec<Title>,
    pub pagination: Pagination,
}

/// The answer of the server to a listing request.
pub struct ServerResponseMessage {
    pub status: bool,
    pub data: Data,
    pub error: Option<String>,
}

/// The fields a listing asks for.
pub open spec fn min_filter() -> Seq<char> {
    "id,names,series"@
}

/// Body of the request for page `page` of the latest releases, nine per page.
pub open spec fn spec_updates_list_query(page: u32) -> Seq<char> {
    "query=list&perPage=9&page="@ + decimal(page as nat) + "&filter="@ + min_filter()
}

/// Body of the request for page `page` of the releases whose name matches
/// `name`.
pub open spec fn spec_search_query(name: Seq<char>, page: u32) -> Seq<char> {
    "query=search&search="@ + name + "&perPage=9&page="@ + decimal(page as nat) + "&filter="@
        + min_filter()
}

/// Body of the request for the episodes of release `id`.
pub open spec fn spec_playlist_query(id: u32) -> Seq<char> {
    "query=release&id="@ + decimal(id as nat) + "&filter=playlist"@
}

/// The request bodies carry the page or release asked for: each holds
/// `page=` (or `id=`) followed by its decimal number at a fixed place, so
/// different pages or releases give different bodies, and a search body
/// also holds the searched name after `search=`.
pub proof fn lemma_queries_carry_their_arguments(name: Seq<char>, page: u32, other_page: u32, id: u32, other_id: u32)
    ensures
        spec_updates_list_query(page).subrange(26, 26 + (decimal(page as nat).len() as int)) == decimal(page as nat),
        spec_updates_list_query(page).subrange(20, 26) == "&page="@,
        spec_search_query(name, page).subrange(20, 20 + (name.len() as int)) == name,
        spec_search_query(name, page).subrange(20 + (name.len() as int) + 16, 20 + (name.len() as int) + 16 + (decimal(page as nat).len() as int)) == decimal(page as nat),
        spec_search_query(name, page).subrange(20 + (name.len() as int) + 10, 20 + (name.len() as int) + 16) == "&page="@,
        spec_playlist_query(id).subrange(17, 17 + (decimal(id as nat).len() as int)) == decimal(id as nat),
        page != other_page ==> spec_updates_list_query(page) != spec_updates_list_query(other_page),
        page != other_page ==> spec_search_query(name, page) != spec_search_query(name, other_page),
        id != other_id ==> spec_playlist_query(id) != spec_playlist_query(other_id),
{
    reveal_strlit("query=list&perPage=9&page=");
    reveal_strlit("&filter=");
    reveal_strlit("id,names,series");
    reveal_strlit("query=search&search=");
    reveal_strlit("&perPage=9&page=");
    reveal_strlit("query=release&id=");
    reveal_strlit("&filter=playlist");
    reveal_strlit("&page=");
    let a = spec_updates_list_query(page);
    let b = spec_search_query(name, page);
    let c = spec_playlist_query(id);
    let dp = decimal(page as nat);
    let di = decimal(id as nat);
    assert(a.subrange(26, 26 + (dp.len() as int)) =~= dp);
    assert(a.subrange(20, 26) =~= "&page="@);
    assert(b.subrange(20, 20 + (name.len() as int)) =~= name);
    assert(b.subrange(20 + (name.len() as int) + 16, 20 + (name.len() as int) + 16 + (dp.len() as int)) =~= dp);
    assert(b.subrange(20 + (name.len() as int) + 10, 20 + (name.len() as int) + 16) =~= "&page="@);
    assert(c.subrange(17, 17 + (di.len() as int)) =~= di);
    lemma_decimal_injective(page as nat, other_page as nat);
    lemma_decimal_injective(id as nat, other_id as nat);
    if page != other_page {
        let a2 = spec_updates_list_query(other_page);
        let b2 = spec_search_query(name, other_page);
        let dq = decimal(other_page as nat);
        // The number runs up to the `&` of `&filter=`, which is no digit.
        crate::text::lemma_decimal_reads_back(page as nat);
        crate::text::lemma_decimal_reads_back(other_page as nat);
        let rest = "&filter="@ + min_filter();
        if a == a2 {
            let head = "query=list&perPage=9&page="@;
            assert(a.subrange(0, 26) =~= head);
            assert(a =~= head + dp + rest);
            assert(a2 =~= head + dq + rest);
            lemma_number_then_suffix(a, head, dp, dq, rest);
        }
        if b == b2 {
            let head = "query=search&search="@ + name + "&perPage=9&page="@;
            let at = 20 + (name.len() as int) + 16;
            assert(b.subrange(0, at) =~= head);
            assert(b =~= head + dp + rest);
            assert(b2 =~= head + dq + rest);
            lemma_number_then_suffix(b, head, dp, dq, rest);
        }
    }
    if id != other_id {
        let c2 = spec_playlist_query(other_id);
        let dj = decimal(other_id as nat);
        crate::text::lemma_decimal_reads_back(id as nat);
        crate::text::lemma_decimal_reads_back(other_id as nat);
        if c == c2 {
            let head = "query=release&id="@;
            assert(c.subrange(0, 17) =~= head);
            assert(c =~= head + di + "&filter=playlist"@);
            assert(c2 =~= head + dj + "&filter=playlist"@);
            lemma_number_then_suffix(c, head, di, dj, "&filter=playlist"@);
        }
    }
}

/// Two decimal numbers after the same head and before the same text that
/// does not start with a digit, in one text, are the same number.
proof fn lemma_number_then_suffix(t: Seq<char>, head: Seq<char>, d1: Seq<char>, d2: Seq<char>, rest: Seq<char>)
    requires
        crate::text::all_digits(d1),
        crate::text::all_digits(d2),
        rest.len() > 0,
        !crate::text::is_digit_char(rest[0]),
        t == head + d1 + rest,
        t == head + d2 + rest,
    ensures
        d1 == d2,
{
    let at = head.len() as int;
    if d1.len() < d2.len() {
        assert(t[at + d1.len()] == rest[0]);
        assert(t[at + d1.len()] == d2[d1.len() as int]);
    } else if d2.len() < d1.len() {
        assert(t[at + d2.len()] == rest[0]);
        assert(t[at + d2.len()] == d1[d2.len() as int]);
    } else {
        assert forall|i: int| 0 <= i < d1.len() implies d1[i] == d2[i] by {
            assert(t[at + i] == (head + d1 + rest)[at + i]);
            assert(t[at + i] == (head + d2 + rest)[at + i]);
        }
        assert(d1 =~= d2);
    }
}

/// Builds the form body that asks for a page of the latest releases.
pub fn updates_list_query(page: u32) -> (body: String)
    ensures
        body@ == spec_updates_list_query(page),
{
    let mut body = String::from_str("query=list&perPage=9&page=");
    push_decimal(&mut body, page as u64);
    body.append("&filter=");
    body.append("id,names,series");
    proof {
        assert(body@ =~= spec_updates_list_query(page));
    }
    body
}

/// Builds the form body of a search by name.
pub fn search_query(name: &str, page: u32) -> (body: String)
    ensures
        body@ == spec_search_query(name@, page),
{
    let mut body = String::from_str("query=search&search=");
    body.append(name);
    body.append("&perPage=9&page=");
    push_decimal(&mut body, page as u64);
    body.append("&filter=");
    body.append("id,names,series");
    proof {
        assert(body@ =~= spec_search_query(name@, page));
    }
    body
}

/// Builds the form body that asks for the episodes of a release.
pub fn playlist_query(id: u32) -> (body: String)
    ensures
        body@ == spec_playlist_query(id),
{
    let mut body = String::from_str("query=release&id=");
    push_decimal(&mut body, id as u64);
    body.append("&filter=playlist");
    proof {
        assert(body@ =~= spec_playlist_query(id));
    }
    body
}

/// Splits a listing answer: its page counter and releases when the server
/// reports success, else the server's error text, or
/// `critical api error` when it gave none.
pub fn process_list_response(msg: ServerResponseMessage) -> (r: Result<(Pagination, Vec<Title>), String>)
    ensures
        msg.status ==> r == Ok::<(Pagination, Vec<Title>), String>((msg.data.pagination, msg.data.items)),
        !msg.status ==> r is Err,
        !msg.status && msg.error is Some ==> r->Err_0@ == msg.error->0@,
        !msg.status && msg.error is None ==> r->Err_0@ == "critical api error"@,
{
    if !msg.status {
        match msg.error {
            Some(e) => Err(e),
            None => Err(String::from_str("critical api error")),
        }
    } else {
        Ok((msg.data.pagination, msg.data.items))
    }
}

} // verus!
