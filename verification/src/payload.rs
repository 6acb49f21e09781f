//! The opaque payload strings that travel through the transport.
//!
//! A join control carries `j:<owner>:<giveaway>`, optionally followed
//! by `:<nonce>`, an opaque timestamp that only forces the displayed
//! label to refresh, and a deep-link entry carries
//! `<owner>_<giveaway>`. Builders and parsers are exact inverses: every
//! built payload parses back to the `(owner, giveaway)` pair it encodes.

use crate::ids::{is_uuid_char, parsed_uuid, uuid_text, uuid_to_string};
use crate::text::{
    chars_to_vec, dec_rep, find_char, is_dec_digit, lemma_dec_rep_digits,
    lemma_parse_of_rep, parse_u64, spec_parse_u64, u64_to_string,
};
use vstd::prelude::*;
use vstd::slice::slice_subrange;
use vstd::string::{StrSliceExecFns, StringExecFns};

verus! {

/// The join-control payload without a nonce.
pub open spec fn join_payload(owner: u64, id: u128) -> Seq<char> {
    seq!['j', ':'] + dec_rep(owner as nat) + seq![':'] + uuid_text(id)
}

/// The join-control payload with a nonce appended.
pub open spec fn join_payload_nonced(owner: u64, id: u128, nonce: u64) -> Seq<char> {
    join_payload(owner, id) + seq![':'] + dec_rep(nonce as nat)
}

/// The deep-link payload appended to the entry command.
pub open spec fn deep_link_payload(owner: u64, id: u128) -> Seq<char> {
    dec_rep(owner as nat) + seq!['_'] + uuid_text(id)
}

/// What parsing a join-control payload yields: the owner identity and
/// the giveaway id, when the text is `j:`, a decimal owner, `:`, an id
/// text, and an optional `:`-separated tail that is ignored.
pub open spec fn spec_parse_join(s: Seq<char>) -> Option<(u64, u128)> {
    if s.len() < 2 || s[0] != 'j' || s[1] != ':' {
        None
    } else {
        let t = s.skip(2);
        match t.index_of_first(':') {
            None => None,
            Some(i) => {
                let owner_part = t.take(i);
                let rest = t.skip(i + 1);
                let id_part = match rest.index_of_first(':') {
                    Some(j) => rest.take(j),
                    None => rest,
                };
                match spec_parse_u64(owner_part) {
                    None => None,
                    Some(o) => match parsed_uuid(id_part) {
                        None => None,
                        Some(g) => Some((o, g)),
                    },
                }
            },
        }
    }
}

/// What parsing a deep-link payload yields: the owner identity and the
/// giveaway id, when the text is a decimal owner, `_`, and an id text.
pub open spec fn spec_parse_deep_link(s: Seq<char>) -> Option<(u64, u128)> {
    match s.index_of_first('_') {
        None => None,
        Some(i) => {
            let owner_part = s.take(i);
            let id_part = s.skip(i + 1);
            match spec_parse_u64(owner_part) {
                None => None,
                Some(o) => match parsed_uuid(id_part) {
                    None => None,
                    Some(g) => Some((o, g)),
                },
            }
        },
    }
}

/// When `c` occurs in `t` first at `d`, the first-occurrence index is
/// `d`.
proof fn lemma_first_index(t: Seq<char>, c: char, d: int)
    requires
        0 <= d < t.len(),
        t[d] == c,
        forall|k: int| 0 <= k < d ==> t[k] != c,
    ensures
        t.index_of_first(c) == Some(d),
{
    t.index_of_first_ensures(c);
    assert(t.contains(c));
    let idx = t.index_of_first(c)->0;
    if idx < d {
        assert(t[idx] == c);
        assert(false);
    }
    if idx > d {
        assert(t[d] != c);
        assert(false);
    }
}

/// When `c` does not occur in `t`, there is no first occurrence.
proof fn lemma_no_index(t: Seq<char>, c: char)
    requires
        forall|k: int| 0 <= k < t.len() ==> t[k] != c,
    ensures
        t.index_of_first(c) is None,
{
    t.index_of_first_ensures(c);
    if t.contains(c) {
        let w = choose|w: int| 0 <= w < t.len() && t[w] == c;
        assert(false);
    }
}

/// A decimal digit is neither the separator nor the deep-link joiner.
proof fn lemma_digit_not_sep(c: char)
    requires
        is_dec_digit(c),
    ensures
        c != ':',
        c != '_',
{
}

/// Builds the join-control payload for `(owner, id)`, with the nonce
/// appended when one is given; the result always parses back to
/// exactly `(owner, id)`.
pub fn make_join_payload(owner: u64, id: u128, nonce: Option<u64>) -> (r: String)
    ensures
        nonce is None ==> r@ == join_payload(owner, id),
        nonce matches Some(n) ==> r@ == join_payload_nonced(owner, id, n),
        spec_parse_join(r@) == Some((owner, id)),
{
    let mut s = String::from_str("j:");
    let owner_text = u64_to_string(owner);
    let id_text = uuid_to_string(id);
    s.append(owner_text.as_str());
    s.append(":");
    s.append(id_text.as_str());
    if let Some(n) = nonce {
        let nonce_text = u64_to_string(n);
        s.append(":");
        s.append(nonce_text.as_str());
    }
    proof {
        reveal_strlit("j:");
        reveal_strlit(":");
        assert("j:"@ =~= seq!['j', ':']);
        assert(":"@ =~= seq![':']);
        lemma_dec_rep_digits(owner as nat);
        lemma_parse_of_rep(owner);
        if nonce is None {
            assert(s@ =~= join_payload(owner, id));
        } else {
            let n = nonce->0;
            lemma_dec_rep_digits(n as nat);
            assert(s@ =~= join_payload_nonced(owner, id, n));
        }
        lemma_join_parse(owner, id, nonce);
    }
    s
}

/// Builds a refreshed join-control payload for `(owner, id)`: the
/// current timestamp rides along as the nonce, forcing the displayed
/// control to change, and whatever moment the clock returned, the
/// payload parses back to exactly `(owner, id)`.
pub fn fresh_join_payload(owner: u64, id: u128) -> (r: String)
    ensures
        spec_parse_join(r@) == Some((owner, id)),
{
    let ts = crate::clock::unix_timestamp();
    let nonce: u64 = if ts < 0 {
        0
    } else {
        ts as u64
    };
    make_join_payload(owner, id, Some(nonce))
}

/// A payload built from `(owner, id)`, with or without a nonce, parses
/// back to exactly that pair, given the id text facts that the builder
/// learned from rendering the id.
proof fn lemma_join_parse(owner: u64, id: u128, nonce: Option<u64>)
    requires
        uuid_text(id).len() == 36,
        forall|i: int| 0 <= i < uuid_text(id).len() ==> is_uuid_char(#[trigger] uuid_text(id)[i]),
        parsed_uuid(uuid_text(id)) == Some(id),
    ensures
        nonce is None ==> spec_parse_join(join_payload(owner, id)) == Some((owner, id)),
        nonce matches Some(n) ==> spec_parse_join(join_payload_nonced(owner, id, n)) == Some(
            (owner, id),
        ),
{
    let o = dec_rep(owner as nat);
    let u = uuid_text(id);
    let d = o.len() as int;
    lemma_dec_rep_digits(owner as nat);
    lemma_parse_of_rep(owner);
    let s = if nonce is None {
        join_payload(owner, id)
    } else {
        join_payload_nonced(owner, id, nonce->0)
    };
    assert(s[0] == 'j' && s[1] == ':');
    let t = s.skip(2);
    assert(t[d] == ':');
    assert forall|k: int| 0 <= k < d implies t[k] != ':' by {
        assert(t[k] == o[k]);
        lemma_digit_not_sep(o[k]);
    }
    lemma_first_index(t, ':', d);
    assert(t.take(d) =~= o);
    let rest = t.skip(d + 1);
    if nonce is None {
        assert(rest =~= u);
        assert forall|k: int| 0 <= k < rest.len() implies rest[k] != ':' by {
            assert(is_uuid_char(u[k]));
        }
        lemma_no_index(rest, ':');
    } else {
        let n = dec_rep(nonce->0 as nat);
        lemma_dec_rep_digits(nonce->0 as nat);
        assert(rest =~= u + seq![':'] + n);
        assert(rest[36] == ':');
        assert forall|k: int| 0 <= k < 36 implies rest[k] != ':' by {
            assert(rest[k] == u[k]);
            assert(is_uuid_char(u[k]));
        }
        lemma_first_index(rest, ':', 36);
        assert(rest.take(36) =~= u);
    }
}

/// Builds the deep-link payload for `(owner, id)`; the result always
/// parses back to exactly `(owner, id)`.
pub fn make_deep_link(owner: u64, id: u128) -> (r: String)
    ensures
        r@ == deep_link_payload(owner, id),
        spec_parse_deep_link(r@) == Some((owner, id)),
{
    let mut s = u64_to_string(owner);
    let id_text = uuid_to_string(id);
    s.append("_");
    s.append(id_text.as_str());
    proof {
        reveal_strlit("_");
        assert("_"@ =~= seq!['_']);
        let o = dec_rep(owner as nat);
        let u = uuid_text(id);
        let d = o.len() as int;
        assert(s@ =~= deep_link_payload(owner, id));
        lemma_dec_rep_digits(owner as nat);
        lemma_parse_of_rep(owner);
        assert(s@[d] == '_');
        assert forall|k: int| 0 <= k < d implies s@[k] != '_' by {
            assert(s@[k] == o[k]);
            lemma_digit_not_sep(o[k]);
        }
        lemma_first_index(s@, '_', d);
        assert(s@.take(d) =~= o);
        assert(s@.skip(d + 1) =~= u);
    }
    s
}

/// What parsing a publish request yields: the target channel and the
/// giveaway id, when the text is a non-empty channel name, one space,
/// and an id text.
pub open spec fn spec_parse_publish_request(s: Seq<char>) -> Option<(Seq<char>, u128)> {
    match s.index_of_first(' ') {
        None => None,
        Some(i) => {
            if i == 0 {
                None
            } else {
                match parsed_uuid(s.skip(i + 1)) {
                    None => None,
                    Some(g) => Some((s.take(i), g)),
                }
            }
        },
    }
}

/// What parsing a draw request yields: the giveaway id and the winner
/// count, when the text is an id text, one space, and a decimal count.
pub open spec fn spec_parse_draw_request(s: Seq<char>) -> Option<(u128, u64)> {
    match s.index_of_first(' ') {
        None => None,
        Some(i) => {
            match parsed_uuid(s.take(i)) {
                None => None,
                Some(g) => match spec_parse_u64(s.skip(i + 1)) {
                    None => None,
                    Some(c) => Some((g, c)),
                },
            }
        },
    }
}

/// Parses a publish request `<channel> <id>`.
pub fn parse_publish_request(s: &str) -> (r: Option<(String, u128)>)
    ensures
        r matches Some(p) ==> spec_parse_publish_request(s@) == Some((p.0@, p.1)),
        r is None <==> spec_parse_publish_request(s@) is None,
{
    let v = chars_to_vec(s);
    let n = v.len();
    match find_char(v.as_slice(), 0, ' ') {
        None => {
            proof {
                lemma_no_index(s@, ' ');
            }
            None
        },
        Some(i) => {
            proof {
                lemma_first_index(s@, ' ', i as int);
            }
            if i == 0 {
                return None;
            }
            let channel = s.substring_char(0, i);
            proof {
                assert(channel@ =~= s@.take(i as int));
            }
            let id_part = slice_subrange(v.as_slice(), i + 1, n);
            proof {
                assert(id_part@ =~= s@.skip(i + 1));
            }
            match crate::ids::parse_uuid_chars(id_part) {
                None => None,
                Some(g) => Some((channel.to_owned(), g)),
            }
        },
    }
}

/// Parses a draw request `<id> <count>`.
pub fn parse_draw_request(s: &str) -> (r: Option<(u128, u64)>)
    ensures
        r == spec_parse_draw_request(s@),
{
    let v = chars_to_vec(s);
    let n = v.len();
    match find_char(v.as_slice(), 0, ' ') {
        None => {
            proof {
                lemma_no_index(s@, ' ');
            }
            None
        },
        Some(i) => {
            proof {
                lemma_first_index(s@, ' ', i as int);
            }
            let id_part = slice_subrange(v.as_slice(), 0, i);
            proof {
                assert(id_part@ =~= s@.take(i as int));
            }
            let g = match crate::ids::parse_uuid_chars(id_part) {
                None => {
                    return None;
                },
                Some(g) => g,
            };
            let count_part = slice_subrange(v.as_slice(), i + 1, n);
            proof {
                assert(count_part@ =~= s@.skip(i + 1));
            }
            match parse_u64(count_part) {
                None => None,
                Some(c) => Some((g, c)),
            }
        },
    }
}

/// Parses a bare giveaway id text.
pub fn parse_giveaway_id(s: &str) -> (r: Option<u128>)
    ensures
        r == parsed_uuid(s@),
{
    let v = chars_to_vec(s);
    crate::ids::parse_uuid_chars(v.as_slice())
}

/// Parses a join-control payload.
pub fn parse_join_payload(s: &str) -> (r: Option<(u64, u128)>)
    ensures
        r == spec_parse_join(s@),
{
    let v = chars_to_vec(s);
    if v.len() < 2 {
        return None;
    }
    let c0 = v[0];
    let c1 = v[1];
    if c0 != 'j' || c1 != ':' {
        return None;
    }
    let ghost t = s@.skip(2);
    match find_char(v.as_slice(), 2, ':') {
        None => {
            proof {
                lemma_no_index(t, ':');
            }
            None
        },
        Some(i) => {
            proof {
                assert(t[i - 2] == ':');
                assert forall|k: int| 0 <= k < i - 2 implies t[k] != ':' by {
                    assert(s@[k + 2] != ':');
                }
                lemma_first_index(t, ':', i - 2);
            }
            let owner_part = slice_subrange(v.as_slice(), 2, i);
            proof {
                assert(owner_part@ =~= t.take(i - 2));
            }
            let owner = match parse_u64(owner_part) {
                None => {
                    return None;
                },
                Some(o) => o,
            };
            let ghost rest = t.skip(i - 2 + 1);
            let end = match find_char(v.as_slice(), i + 1, ':') {
                None => {
                    proof {
                        assert forall|k: int| 0 <= k < rest.len() implies rest[k] != ':' by {
                            assert(rest[k] == s@[k + i + 1]);
                        }
                        lemma_no_index(rest, ':');
                    }
                    v.len()
                },
                Some(j) => {
                    proof {
                        assert(rest[j - i - 1] == ':');
                        assert forall|k: int| 0 <= k < j - i - 1 implies rest[k] != ':' by {
                            assert(rest[k] == s@[k + i + 1]);
                        }
                        lemma_first_index(rest, ':', j - i - 1);
                        assert(rest.take(j - i - 1) =~= s@.subrange(i + 1, j as int));
                    }
                    j
                },
            };
            let id_part = slice_subrange(v.as_slice(), i + 1, end);
            proof {
                if end == v.len() {
                    assert(id_part@ =~= rest);
                } else {
                    assert(id_part@ =~= rest.take(end - i - 1));
                }
            }
            match crate::ids::parse_uuid_chars(id_part) {
                None => None,
                Some(g) => Some((owner, g)),
            }
        },
    }
}

/// Parses a deep-link payload.
pub fn parse_deep_link(s: &str) -> (r: Option<(u64, u128)>)
    ensures
        r == spec_parse_deep_link(s@),
{
    let v = chars_to_vec(s);
    match find_char(v.as_slice(), 0, '_') {
        None => {
            proof {
                lemma_no_index(s@, '_');
            }
            None
        },
        Some(i) => {
            let n = v.len();
            proof {
                assert(i < n);
                lemma_first_index(s@, '_', i as int);
            }
            let owner_part = slice_subrange(v.as_slice(), 0, i);
            proof {
                assert(owner_part@ =~= s@.take(i as int));
            }
            let owner = match parse_u64(owner_part) {
                None => {
                    return None;
                },
                Some(o) => o,
            };
            let id_part = slice_subrange(v.as_slice(), i + 1, n);
            proof {
                assert(id_part@ =~= s@.skip(i + 1));
            }
            match crate::ids::parse_uuid_chars(id_part) {
                None => None,
                Some(g) => Some((owner, g)),
            }
        },
    }
}

} // verus!
