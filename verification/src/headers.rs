//! Response headers: which configured headers are kept and how each is split
//! into its name and value.

use vstd::prelude::*;
use vstd::string::*;
use crate::config::{default_headers, spec_default_headers};

verus! {

/// What `regex::Regex::is_match` answers for the pattern `pattern` on `haystack`:
/// whether some part of `haystack` matches; false when `pattern` is not a valid
/// regular expression.
pub uninterp spec fn regex_is_match(pattern: Seq<char>, haystack: Seq<char>) -> bool;

/// Compiles `pattern` with `regex::Regex::new` and asks `regex::Regex::is_match`
/// whether `haystack` holds a match. The contract only names the answer
/// (`regex_is_match`); what a regular expression matches is not stated.
#[verifier::external_body]
fn regex_matches(pattern: &str, haystack: &str) -> (b: bool)
    ensures
        b == regex_is_match(pattern@, haystack@),
{
    match regex::Regex::new(pattern) {
        Ok(re) => re.is_match(haystack),
        Err(_) => false,
    }
}

/// The pattern a header must contain a match of to be kept: a name of word
/// characters and dashes, a colon, white space, and a value of word characters
/// and slashes.
pub const HEADER_PATTERN: &'static str = "([\\w-]+):\\s+([\\w/]+)";

/// Whether a header is kept.
pub open spec fn header_is_valid(header: Seq<char>) -> bool {
    regex_is_match(HEADER_PATTERN@, header)
}

/// Whether the separator `": "` starts at position `i` of `s`.
pub open spec fn sep_at(s: Seq<char>, i: int) -> bool {
    0 <= i && i + 1 < s.len() && s[i] == ':' && s[i + 1] == ' '
}

/// The first position at or after `i` where the separator starts, or -1.
pub open spec fn find_sep(s: Seq<char>, i: int) -> int
    decreases s.len() - i,
{
    if i < 0 || i + 1 >= s.len() {
        -1
    } else if sep_at(s, i) {
        i
    } else {
        find_sep(s, i + 1)
    }
}

/// `find_sep` gives the first separator at or after `i`, or -1 when there is none.
pub proof fn lemma_find_sep(s: Seq<char>, i: int)
    requires
        0 <= i,
    ensures
        find_sep(s, i) == -1 ==> forall|j: int| i <= j ==> !sep_at(s, j),
        find_sep(s, i) != -1 ==> {
            &&& i <= find_sep(s, i)
            &&& sep_at(s, find_sep(s, i))
            &&& forall|j: int| i <= j < find_sep(s, i) ==> !sep_at(s, j)
        },
    decreases s.len() - i,
{
    if i + 1 < s.len() && !sep_at(s, i) {
        lemma_find_sep(s, i + 1);
    }
}

/// The pieces of `s` between the separators `": "`, from left to right: the
/// text before the first separator, then the pieces of the rest.
pub open spec fn split_pieces(s: Seq<char>) -> Seq<Seq<char>>
    decreases s.len(),
{
    let k = find_sep(s, 0);
    if k < 0 {
        seq![s]
    } else {
        proof {
            lemma_find_sep(s, 0);
        }
        seq![s.take(k)] + split_pieces(s.skip(k + 2))
    }
}

/// The pieces joined again, with the separator between each two.
pub open spec fn join_pieces(pieces: Seq<Seq<char>>) -> Seq<char>
    decreases pieces.len(),
{
    if pieces.len() == 0 {
        seq![]
    } else if pieces.len() == 1 {
        pieces[0]
    } else {
        pieces[0] + ": "@ + join_pieces(pieces.drop_first())
    }
}

/// The headers that are kept, in order, each split into its pieces.
pub open spec fn kept_split(headers: Seq<Seq<char>>) -> Seq<Seq<Seq<char>>>
    decreases headers.len(),
{
    if headers.len() == 0 {
        seq![]
    } else {
        let rest = kept_split(headers.drop_last());
        if header_is_valid(headers.last()) {
            rest.push(split_pieces(headers.last()))
        } else {
            rest
        }
    }
}

/// The headers of a response: the configured ones, or the default ones when
/// none are configured; those that do not contain a match of the header
/// pattern are dropped, and each of the others is split on `": "`.
pub open spec fn spec_process_headers(headers: Option<Seq<Seq<char>>>) -> Seq<Seq<Seq<char>>> {
    kept_split(
        match headers {
            Some(h) => h,
            None => spec_default_headers(),
        },
    )
}

/// When the separator is at `k` and nowhere before, the first piece ends at `k`.
proof fn lemma_split_at_first(s: Seq<char>, k: int)
    requires
        sep_at(s, k),
        forall|j: int| 0 <= j < k ==> !sep_at(s, j),
    ensures
        split_pieces(s) == seq![s.take(k)] + split_pieces(s.skip(k + 2)),
{
    lemma_find_sep(s, 0);
    if find_sep(s, 0) == -1 {
        assert(!sep_at(s, k));
    } else if find_sep(s, 0) < k {
        assert(!sep_at(s, find_sep(s, 0)));
    } else if find_sep(s, 0) > k {
        assert(!sep_at(s, k));
    }
}

/// With no separator, there is one piece: the whole text.
proof fn lemma_split_none(s: Seq<char>)
    requires
        forall|j: int| 0 <= j ==> !sep_at(s, j),
    ensures
        split_pieces(s) == seq![s],
{
    lemma_find_sep(s, 0);
}

/// Splits `s` on every `": "`, from left to right.
pub fn split_header(s: &str) -> (pieces: Vec<String>)
    ensures
        pieces.deep_view() == split_pieces(s@),
{
    let n = s.unicode_len();
    let mut pieces: Vec<String> = Vec::new();
    let mut start: usize = 0;
    let mut i: usize = 0;
    assert(s@.skip(0) =~= s@);
    assert(pieces.deep_view() + split_pieces(s@) =~= split_pieces(s@));
    while i < n
        invariant
            n == s@.len(),
            start <= i <= n,
            pieces.deep_view() + split_pieces(s@.skip(start as int)) == split_pieces(s@),
            forall|j: int| start <= j < i ==> !sep_at(s@, j),
        decreases n - i,
    {
        if i + 1 < n && s.get_char(i) == ':' && s.get_char(i + 1) == ' ' {
            let piece = s.substring_char(start, i).to_owned();
            let ghost rest = s@.skip(start as int);
            proof {
                let k = i - start;
                assert forall|j: int| 0 <= j < k implies !sep_at(rest, j) by {
                    assert(!sep_at(s@, start + j));
                }
                assert(sep_at(rest, k));
                lemma_split_at_first(rest, k);
                assert(rest.take(k) =~= piece@);
                assert(rest.skip(k + 2) =~= s@.skip(i + 2));
            }
            let ghost before = pieces.deep_view();
            pieces.push(piece);
            proof {
                assert(pieces.deep_view() =~= before.push(piece@));
                assert(before + split_pieces(rest) == split_pieces(s@));
                assert(split_pieces(rest) == seq![piece@] + split_pieces(s@.skip(i + 2)));
                assert(pieces.deep_view() + split_pieces(s@.skip(i + 2)) =~= before + split_pieces(
                    rest,
                ));
            }
            start = i + 2;
            i = i + 2;
        } else {
            i = i + 1;
        }
    }
    let last = s.substring_char(start, n).to_owned();
    let ghost rest = s@.skip(start as int);
    proof {
        assert forall|j: int| 0 <= j implies !sep_at(rest, j) by {
            if j + 1 < rest.len() {
                assert(!sep_at(s@, start + j));
            }
        }
        lemma_split_none(rest);
        assert(last@ =~= rest);
    }
    let ghost before = pieces.deep_view();
    pieces.push(last);
    proof {
        assert(pieces.deep_view() =~= before.push(last@));
        assert(pieces.deep_view() =~= before + split_pieces(rest));
    }
    pieces
}

/// The headers of `headers` that contain a match of [`HEADER_PATTERN`], in
/// order, each split on `": "`.
pub fn keep_and_split(headers: &Vec<String>) -> (r: Vec<Vec<String>>)
    ensures
        r.deep_view() == kept_split(headers.deep_view()),
{
    let ghost hs = headers.deep_view();
    let mut r: Vec<Vec<String>> = Vec::new();
    let mut i: usize = 0;
    while i < headers.len()
        invariant
            hs == headers.deep_view(),
            i <= headers.len(),
            r.deep_view() == kept_split(hs.take(i as int)),
        decreases headers.len() - i,
    {
        let header = headers[i].as_str();
        assert(hs.take(i + 1).drop_last() =~= hs.take(i as int));
        assert(hs.take(i + 1).last() == header@);
        if regex_matches(HEADER_PATTERN, header) {
            let pieces = split_header(header);
            let ghost before = r.deep_view();
            r.push(pieces);
            assert(r.deep_view() =~= before.push(pieces.deep_view()));
        }
        i = i + 1;
    }
    assert(hs.take(headers.len() as int) =~= hs);
    r
}

/// The headers of a response: the configured ones, or the default ones when
/// none are configured, without those that do not contain a match of
/// [`HEADER_PATTERN`], each split on `": "` into its name and value.
pub fn process_headers(headers: Option<Vec<String>>) -> (r: Vec<Vec<String>>)
    ensures
        r.deep_view() == spec_process_headers(headers.deep_view()),
{
    match headers {
        Some(h) => keep_and_split(&h),
        None => keep_and_split(&default_headers()),
    }
}

/// Splitting a text on `": "` and joining the pieces again gives the text back.
pub proof fn lemma_split_join(s: Seq<char>)
    ensures
        join_pieces(split_pieces(s)) == s,
    decreases s.len(),
{
    let k = find_sep(s, 0);
    lemma_find_sep(s, 0);
    if k >= 0 {
        let rest = s.skip(k + 2);
        lemma_split_join(rest);
        let p = split_pieces(s);
        assert(p == seq![s.take(k)] + split_pieces(rest));
        assert(p.drop_first() =~= split_pieces(rest));
        assert(split_pieces(rest).len() >= 1) by {
            lemma_find_sep(rest, 0);
        }
        assert(": "@ =~= seq![':', ' ']) by {
            reveal_strlit(": ");
        }
        assert(s =~= s.take(k) + ": "@ + rest);
    }
}

/// The headers of a response come from the configured ones: each is a
/// configured header that contains a match of the header pattern, and its
/// pieces joined again give that header back; there are no more of them than
/// configured headers.
pub proof fn lemma_kept_headers_come_from_config(headers: Seq<Seq<char>>)
    ensures
        kept_split(headers).len() <= headers.len(),
        forall|i: int|
            0 <= i < kept_split(headers).len() ==> exists|j: int|
                0 <= j < headers.len() && header_is_valid(headers[j]) && #[trigger] join_pieces(
                    kept_split(headers)[i],
                ) == headers[j],
    decreases headers.len(),
{
    if headers.len() > 0 {
        let init = headers.drop_last();
        lemma_kept_headers_come_from_config(init);
        let rest = kept_split(init);
        assert forall|i: int| 0 <= i < kept_split(headers).len() implies exists|j: int|
            0 <= j < headers.len() && header_is_valid(headers[j]) && #[trigger] join_pieces(
                kept_split(headers)[i],
            ) == headers[j] by {
            if i < rest.len() {
                assert(kept_split(headers)[i] == rest[i]);
                let j = choose|j: int|
                    0 <= j < init.len() && header_is_valid(init[j]) && #[trigger] join_pieces(
                        rest[i],
                    ) == init[j];
                assert(init[j] == headers[j]);
            } else {
                let last = headers.len() - 1;
                lemma_split_join(headers[last]);
                assert(join_pieces(kept_split(headers)[i]) == headers[last]);
            }
        }
    }
}

/// Exactly the headers that contain a match of the pattern
/// `([\w-]+):\s+([\w/]+)` are kept, all of them and in their order, and
/// each kept header becomes the pieces that `split_pieces` cuts it into.
pub proof fn lemma_kept_split_filters_by_pattern(headers: Seq<Seq<char>>)
    ensures
        kept_split(headers) == headers.filter(
            |h: Seq<char>| regex_is_match("([\\w-]+):\\s+([\\w/]+)"@, h),
        ).map_values(|h: Seq<char>| split_pieces(h)),
    decreases headers.len(),
{
    let pred = |h: Seq<char>| regex_is_match("([\\w-]+):\\s+([\\w/]+)"@, h);
    let split = |h: Seq<char>| split_pieces(h);
    reveal(Seq::filter);
    assert(HEADER_PATTERN@ == "([\\w-]+):\\s+([\\w/]+)"@);
    if headers.len() > 0 {
        let init = headers.drop_last();
        lemma_kept_split_filters_by_pattern(init);
        assert(kept_split(init) == init.filter(pred).map_values(split));
        let f = init.filter(pred);
        if pred(headers.last()) {
            assert(headers.filter(pred) == f.push(headers.last()));
            assert(f.push(headers.last()).map_values(split) =~= f.map_values(split).push(
                split_pieces(headers.last()),
            ));
        } else {
            assert(headers.filter(pred) == f);
        }
        assert(kept_split(headers) == headers.filter(pred).map_values(split));
    } else {
        assert(headers.filter(pred) =~= headers);
        assert(headers.filter(pred).map_values(split) =~= Seq::<Seq<Seq<char>>>::empty());
    }
}

/// Splitting gives at least one piece, and no piece holds the separator
/// `": "`: every separator of the text is cut at.
pub proof fn lemma_split_pieces_hold_no_separator(s: Seq<char>)
    ensures
        split_pieces(s).len() >= 1,
        forall|i: int, j: int|
            0 <= i < split_pieces(s).len() && 0 <= j && j + 1 < split_pieces(s)[i].len() ==> !(
            #[trigger] split_pieces(s)[i][j] == ':' && split_pieces(s)[i][j + 1] == ' '),
    decreases s.len(),
{
    let k = find_sep(s, 0);
    lemma_find_sep(s, 0);
    if k >= 0 {
        let rest = s.skip(k + 2);
        lemma_split_pieces_hold_no_separator(rest);
        let p = split_pieces(s);
        assert(p == seq![s.take(k)] + split_pieces(rest));
        assert forall|i: int, j: int|
            0 <= i < p.len() && 0 <= j && j + 1 < p[i].len() implies !(#[trigger] p[i][j] == ':'
            && p[i][j + 1] == ' ') by {
            if i == 0 {
                assert(p[0] == s.take(k));
                assert(!sep_at(s, j));
            } else {
                assert(p[i] == split_pieces(rest)[i - 1]);
            }
        }
    } else {
        let p = split_pieces(s);
        assert(p == seq![s]);
        assert forall|i: int, j: int|
            0 <= i < p.len() && 0 <= j && j + 1 < p[i].len() implies !(#[trigger] p[i][j] == ':'
            && p[i][j + 1] == ' ') by {
            assert(!sep_at(s, j));
        }
    }
}

/// The headers of a response are the configured ones, or, when none are
/// configured, the one header `Content-Type: application/json`; of these,
/// exactly those that contain a match of `([\w-]+):\s+([\w/]+)` are kept, in
/// order, each split on `": "`.
pub proof fn lemma_process_headers_configured_or_default(headers: Option<Seq<Seq<char>>>)
    ensures
        headers matches Some(hs) ==> spec_process_headers(headers) == hs.filter(
            |h: Seq<char>| regex_is_match("([\\w-]+):\\s+([\\w/]+)"@, h),
        ).map_values(|h: Seq<char>| split_pieces(h)),
        headers is None ==> spec_process_headers(headers) == seq!["Content-Type: application/json"@].filter(
            |h: Seq<char>| regex_is_match("([\\w-]+):\\s+([\\w/]+)"@, h),
        ).map_values(|h: Seq<char>| split_pieces(h)),
{
    match headers {
        Some(hs) => lemma_kept_split_filters_by_pattern(hs),
        None => lemma_kept_split_filters_by_pattern(spec_default_headers()),
    }
}

} // verus!
