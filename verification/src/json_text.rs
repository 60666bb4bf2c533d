//! Verified readers for compact JSON text.  The claims wrapper hands
//! each top-level claim over as its serialized text, with no
//! whitespace between tokens; the readers here turn that text back
//! into plain values, so claim handling stays inside the proof
//! boundary.  Escapes cover what the serializer emits: `\"`, `\\`,
//! `\/`, the short control escapes, and `\u00XX` for other ASCII
//! control characters.

use vstd::prelude::*;
use crate::text::{char_to_string, dec_value, is_u64_rep, parse_u64};

verus! {

/// The value of a hexadecimal digit character, if it is one.
pub open spec fn spec_hex_val(c: char) -> Option<int> {
    if 48 <= c as int <= 57 {
        Some(c as int - 48)
    } else if 97 <= c as int <= 102 {
        Some(c as int - 87)
    } else if 65 <= c as int <= 70 {
        Some(c as int - 55)
    } else {
        None
    }
}

fn hex_val(c: char) -> (r: Option<u32>)
    ensures
        match r {
            Some(v) => spec_hex_val(c) == Some(v as int) && v < 16,
            None => spec_hex_val(c) is None,
        },
{
    let u = c as u32;
    if 48 <= u && u <= 57 {
        Some(u - 48)
    } else if 97 <= u && u <= 102 {
        Some(u - 87)
    } else if 65 <= u && u <= 70 {
        Some(u - 55)
    } else {
        None
    }
}

/// Reads string content from position `i` (just after the opening
/// quote) to the closing quote: the decoded characters and the
/// position after the quote.
pub open spec fn spec_string_tail(s: Seq<char>, i: int) -> Option<(Seq<char>, int)>
    decreases s.len() - i,
{
    if i < 0 || i >= s.len() {
        None
    } else if s[i] == '"' {
        Some((Seq::empty(), i + 1))
    } else if s[i] == '\\' {
        if i + 1 < s.len() {
            let e = s[i + 1];
            if e == '"' || e == '\\' || e == '/' {
                spec_cons(e, spec_string_tail(s, i + 2))
            } else if e == 'b' {
                spec_cons('\u{0008}', spec_string_tail(s, i + 2))
            } else if e == 'f' {
                spec_cons('\u{000c}', spec_string_tail(s, i + 2))
            } else if e == 'n' {
                spec_cons('\n', spec_string_tail(s, i + 2))
            } else if e == 'r' {
                spec_cons('\r', spec_string_tail(s, i + 2))
            } else if e == 't' {
                spec_cons('\t', spec_string_tail(s, i + 2))
            } else if e == 'u' && i + 5 < s.len() {
                match (
                    spec_hex_val(s[i + 2]),
                    spec_hex_val(s[i + 3]),
                    spec_hex_val(s[i + 4]),
                    spec_hex_val(s[i + 5]),
                ) {
                    (Some(h1), Some(h2), Some(h3), Some(h4)) => {
                        let v = 4096 * h1 + 256 * h2 + 16 * h3 + h4;
                        if v < 128 {
                            spec_cons((v as u8) as char, spec_string_tail(s, i + 6))
                        } else {
                            None
                        }
                    },
                    _ => None,
                }
            } else {
                None
            }
        } else {
            None
        }
    } else {
        spec_cons(s[i], spec_string_tail(s, i + 1))
    }
}

/// Prepends a character to a partial string-reader result.
pub open spec fn spec_cons(c: char, rest: Option<(Seq<char>, int)>) -> Option<(Seq<char>, int)> {
    match rest {
        Some((t, j)) => Some((seq![c] + t, j)),
        None => None,
    }
}

/// The string reader only moves forward, never past the end.
pub proof fn lemma_string_tail_bounds(s: Seq<char>, i: int)
    ensures
        spec_string_tail(s, i) matches Some(r) ==> i < r.1 <= s.len(),
    decreases s.len() - i,
{
    if 0 <= i < s.len() {
        lemma_string_tail_bounds(s, i + 1);
        if i + 2 <= s.len() {
            lemma_string_tail_bounds(s, i + 2);
        }
        if i + 6 <= s.len() {
            lemma_string_tail_bounds(s, i + 6);
        }
    }
}

fn string_tail(s: &str, i: usize) -> (r: Option<(String, usize)>)
    requires
        i <= s@.len(),
    ensures
        match spec_string_tail(s@, i as int) {
            Some(p) => r matches Some(q) && q.0@ == p.0 && q.1 == p.1 && q.1 <= s@.len(),
            None => r is None,
        },
    decreases s@.len() - i,
{
    proof {
        lemma_string_tail_bounds(s@, i as int);
    }
    let len = s.unicode_len();
    if i >= len {
        return None;
    }
    let c = s.get_char(i);
    if c == '"' {
        return Some((String::new(), i + 1));
    }
    if c == '\\' {
        if i + 1 >= len {
            return None;
        }
        let e = s.get_char(i + 1);
        let decoded: Option<(char, usize)> = if e == '"' || e == '\\' || e == '/' {
            Some((e, i + 2))
        } else if e == 'b' {
            Some(('\u{0008}', i + 2))
        } else if e == 'f' {
            Some(('\u{000c}', i + 2))
        } else if e == 'n' {
            Some(('\n', i + 2))
        } else if e == 'r' {
            Some(('\r', i + 2))
        } else if e == 't' {
            Some(('\t', i + 2))
        } else if e == 'u' && len - i >= 6 {
            match (
                hex_val(s.get_char(i + 2)),
                hex_val(s.get_char(i + 3)),
                hex_val(s.get_char(i + 4)),
                hex_val(s.get_char(i + 5)),
            ) {
                (Some(h1), Some(h2), Some(h3), Some(h4)) => {
                    let v: u32 = 4096 * h1 + 256 * h2 + 16 * h3 + h4;
                    if v < 128 {
                        Some(((v as u8) as char, i + 6))
                    } else {
                        None
                    }
                }
                _ => None,
            }
        } else {
            None
        };
        match decoded {
            Some((d, next)) => {
                match string_tail(s, next) {
                    Some(rest) => {
                        let mut out = char_to_string(d);
                        out.append(rest.0.as_str());
                        proof {
                            assert(out@ =~= seq![d] + rest.0@);
                        }
                        Some((out, rest.1))
                    }
                    None => None,
                }
            }
            None => None,
        }
    } else {
        match string_tail(s, i + 1) {
            Some(rest) => {
                let mut out = char_to_string(c);
                out.append(rest.0.as_str());
                proof {
                    assert(out@ =~= seq![c] + rest.0@);
                }
                Some((out, rest.1))
            }
            None => None,
        }
    }
}

/// The decoded contents of a whole serialized JSON string: a quote,
/// content, a quote, nothing after.
pub open spec fn spec_json_string(s: Seq<char>) -> Option<Seq<char>> {
    if s.len() >= 1 && s[0] == '"' {
        match spec_string_tail(s, 1) {
            Some((t, j)) => if j == s.len() {
                Some(t)
            } else {
                None
            },
            None => None,
        }
    } else {
        None
    }
}

/// Decodes a whole serialized JSON string.
pub fn parse_json_string(s: &str) -> (r: Option<String>)
    ensures
        match spec_json_string(s@) {
            Some(t) => r matches Some(v) && v@ == t,
            None => r is None,
        },
{
    let len = s.unicode_len();
    if len >= 1 && s.get_char(0) == '"' {
        match string_tail(s, 1) {
            Some((t, j)) => {
                if j == len {
                    Some(t)
                } else {
                    None
                }
            }
            None => None,
        }
    } else {
        None
    }
}

/// The value of a whole serialized JSON unsigned integer.
pub open spec fn spec_json_u64(s: Seq<char>) -> Option<u64> {
    if is_u64_rep(s) {
        Some(dec_value(s) as u64)
    } else {
        None
    }
}

/// Decodes a whole serialized JSON unsigned integer.
pub fn parse_json_u64(s: &str) -> (r: Option<u64>)
    ensures
        r == spec_json_u64(s@),
{
    parse_u64(s)
}

/// Reads `[` `]`-array items from position `i`, which must sit on the
/// opening quote of the first item; `fuel` bounds the recursion and is
/// ample at the text's length.
pub open spec fn spec_string_items(s: Seq<char>, i: int, fuel: nat) -> Option<(
    Seq<Seq<char>>,
    int,
)>
    decreases fuel,
{
    if fuel == 0 {
        None
    } else if i < s.len() && s[i] == '"' {
        match spec_string_tail(s, i + 1) {
            Some((t, j)) => {
                if j < s.len() && s[j] == ',' {
                    match spec_string_items(s, j + 1, (fuel - 1) as nat) {
                        Some((rest, k)) => Some((seq![t] + rest, k)),
                        None => None,
                    }
                } else if j < s.len() && s[j] == ']' {
                    Some((seq![t], j + 1))
                } else {
                    None
                }
            },
            None => None,
        }
    } else {
        None
    }
}

fn string_items(s: &str, i: usize, fuel: usize) -> (r: Option<(Vec<String>, usize)>)
    requires
        i <= s@.len(),
    ensures
        match spec_string_items(s@, i as int, fuel as nat) {
            Some(p) => r matches Some(q) && q.0@.map_values(|x: String| x@) == p.0 && q.1 == p.1
                && q.1 <= s@.len(),
            None => r is None,
        },
    decreases fuel,
{
    if fuel == 0 {
        return None;
    }
    let len = s.unicode_len();
    if i < len && s.get_char(i) == '"' {
        proof {
            lemma_string_tail_bounds(s@, i + 1);
        }
        match string_tail(s, i + 1) {
            Some((t, j)) => {
                if j < len && s.get_char(j) == ',' {
                    match string_items(s, j + 1, fuel - 1) {
                        Some((rest, k)) => {
                            let mut out: Vec<String> = Vec::new();
                            out.push(t);
                            let ghost t_view = out@[0]@;
                            let mut rest_vec = rest;
                            out.append(&mut rest_vec);
                            proof {
                                let spec_rest = (spec_string_items(
                                    s@,
                                    j + 1,
                                    (fuel - 1) as nat,
                                )->0).0;
                                assert(out@.map_values(|x: String| x@) =~= seq![t_view]
                                    + spec_rest);
                            }
                            Some((out, k))
                        }
                        None => None,
                    }
                } else if j < len && s.get_char(j) == ']' {
                    let mut out: Vec<String> = Vec::new();
                    out.push(t);
                    proof {
                        assert(out@.map_values(|x: String| x@) =~= seq![out@[0]@]);
                    }
                    Some((out, j + 1))
                } else {
                    None
                }
            }
            None => None,
        }
    } else {
        None
    }
}

/// The elements of a whole serialized array of strings.
pub open spec fn spec_json_string_array(s: Seq<char>) -> Option<Seq<Seq<char>>> {
    if s.len() >= 2 && s[0] == '[' {
        if s.len() == 2 && s[1] == ']' {
            Some(Seq::empty())
        } else {
            match spec_string_items(s, 1, s.len() as nat) {
                Some((items, j)) => if j == s.len() {
                    Some(items)
                } else {
                    None
                },
                None => None,
            }
        }
    } else {
        None
    }
}

/// Decodes a whole serialized array of strings.
pub fn parse_json_string_array(s: &str) -> (r: Option<Vec<String>>)
    ensures
        match spec_json_string_array(s@) {
            Some(items) => r matches Some(v) && v@.map_values(|x: String| x@) == items,
            None => r is None,
        },
{
    let len = s.unicode_len();
    if len >= 2 && s.get_char(0) == '[' {
        if len == 2 && s.get_char(1) == ']' {
            let out: Vec<String> = Vec::new();
            proof {
                assert(out@.map_values(|x: String| x@) =~= Seq::<Seq<char>>::empty());
            }
            Some(out)
        } else {
            match string_items(s, 1, len) {
                Some((items, j)) => {
                    if j == len {
                        Some(items)
                    } else {
                        None
                    }
                }
                None => None,
            }
        }
    } else {
        None
    }
}

/// Reads `{` `}`-object members from position `i`, which must sit on
/// the opening quote of the first key; values must be strings.
pub open spec fn spec_pair_items(s: Seq<char>, i: int, fuel: nat) -> Option<(
    Seq<(Seq<char>, Seq<char>)>,
    int,
)>
    decreases fuel,
{
    if fuel == 0 {
        None
    } else if i < s.len() && s[i] == '"' {
        match spec_string_tail(s, i + 1) {
            Some((key, j)) => {
                if j + 1 < s.len() && s[j] == ':' && s[j + 1] == '"' {
                    match spec_string_tail(s, j + 2) {
                        Some((value, k)) => {
                            if k < s.len() && s[k] == ',' {
                                match spec_pair_items(s, k + 1, (fuel - 1) as nat) {
                                    Some((rest, m)) => Some((seq![(key, value)] + rest, m)),
                                    None => None,
                                }
                            } else if k < s.len() && s[k] == '}' {
                                Some((seq![(key, value)], k + 1))
                            } else {
                                None
                            }
                        },
                        None => None,
                    }
                } else {
                    None
                }
            },
            None => None,
        }
    } else {
        None
    }
}

fn pair_items(s: &str, i: usize, fuel: usize) -> (r: Option<(Vec<(String, String)>, usize)>)
    requires
        i <= s@.len(),
    ensures
        match spec_pair_items(s@, i as int, fuel as nat) {
            Some(p) => r matches Some(q) && q.0@.map_values(
                |x: (String, String)| (x.0@, x.1@),
            ) == p.0 && q.1 == p.1 && q.1 <= s@.len(),
            None => r is None,
        },
    decreases fuel,
{
    if fuel == 0 {
        return None;
    }
    let len = s.unicode_len();
    if i < len && s.get_char(i) == '"' {
        proof {
            lemma_string_tail_bounds(s@, i + 1);
        }
        match string_tail(s, i + 1) {
            Some((key, j)) => {
                if len - j >= 2 && s.get_char(j) == ':' && s.get_char(j + 1) == '"' {
                    proof {
                        lemma_string_tail_bounds(s@, j + 2);
                    }
                    match string_tail(s, j + 2) {
                        Some((value, k)) => {
                            if k < len && s.get_char(k) == ',' {
                                match pair_items(s, k + 1, fuel - 1) {
                                    Some((rest, m)) => {
                                        let mut out: Vec<(String, String)> = Vec::new();
                                        out.push((key, value));
                                        let ghost head = (out@[0].0@, out@[0].1@);
                                        let mut rest_vec = rest;
                                        out.append(&mut rest_vec);
                                        proof {
                                            let spec_rest = (spec_pair_items(
                                                s@,
                                                k + 1,
                                                (fuel - 1) as nat,
                                            )->0).0;
                                            assert(out@.map_values(
                                                |x: (String, String)| (x.0@, x.1@),
                                            ) =~= seq![head] + spec_rest);
                                        }
                                        Some((out, m))
                                    }
                                    None => None,
                                }
                            } else if k < len && s.get_char(k) == '}' {
                                let mut out: Vec<(String, String)> = Vec::new();
                                out.push((key, value));
                                proof {
                                    assert(out@.map_values(|x: (String, String)| (x.0@, x.1@))
                                        =~= seq![(out@[0].0@, out@[0].1@)]);
                                }
                                Some((out, k + 1))
                            } else {
                                None
                            }
                        }
                        None => None,
                    }
                } else {
                    None
                }
            }
            None => None,
        }
    } else {
        None
    }
}

/// The members of a whole serialized object whose values are strings.
pub open spec fn spec_json_string_object(s: Seq<char>) -> Option<Seq<(Seq<char>, Seq<char>)>> {
    if s.len() >= 2 && s[0] == '{' {
        if s.len() == 2 && s[1] == '}' {
            Some(Seq::empty())
        } else {
            match spec_pair_items(s, 1, s.len() as nat) {
                Some((items, j)) => if j == s.len() {
                    Some(items)
                } else {
                    None
                },
                None => None,
            }
        }
    } else {
        None
    }
}

/// Decodes a whole serialized object with string values.
pub fn parse_json_string_object(s: &str) -> (r: Option<Vec<(String, String)>>)
    ensures
        match spec_json_string_object(s@) {
            Some(items) => r matches Some(v) && v@.map_values(
                |x: (String, String)| (x.0@, x.1@),
            ) == items,
            None => r is None,
        },
{
    let len = s.unicode_len();
    if len >= 2 && s.get_char(0) == '{' {
        if len == 2 && s.get_char(1) == '}' {
            let out: Vec<(String, String)> = Vec::new();
            proof {
                assert(out@.map_values(|x: (String, String)| (x.0@, x.1@)) =~= Seq::<
                    (Seq<char>, Seq<char>),
                >::empty());
            }
            Some(out)
        } else {
            match pair_items(s, 1, len) {
                Some((items, j)) => {
                    if j == len {
                        Some(items)
                    } else {
                        None
                    }
                }
                None => None,
            }
        }
    } else {
        None
    }
}

/// The serialized text of the first member named `name`.
pub open spec fn spec_member(
    members: Seq<(Seq<char>, Seq<char>)>,
    name: Seq<char>,
) -> Option<Seq<char>>
    decreases members.len(),
{
    if members.len() == 0 {
        None
    } else if members[0].0 == name {
        Some(members[0].1)
    } else {
        spec_member(members.drop_first(), name)
    }
}

/// View of a member list.
pub open spec fn member_views(members: Seq<(String, String)>) -> Seq<(Seq<char>, Seq<char>)> {
    members.map_values(|m: (String, String)| (m.0@, m.1@))
}

/// Returns the serialized text of the first member named `name`.
pub fn member_get(members: &Vec<(String, String)>, name: &str) -> (r: Option<String>)
    ensures
        match r {
            Some(v) => spec_member(member_views(members@), name@) == Some(v@),
            None => spec_member(member_views(members@), name@) is None,
        },
{
    let mut i: usize = 0;
    while i < members.len()
        invariant
            0 <= i <= members@.len(),
            forall|j: int| 0 <= j < i ==> (#[trigger] member_views(members@)[j]).0 != name@,
        decreases members@.len() - i,
    {
        if crate::text::str_eq(members[i].0.as_str(), name) {
            let v = members[i].1.clone();
            proof {
                lemma_member_hit(member_views(members@), name@, i as int);
            }
            return Some(v);
        }
        i += 1;
    }
    proof {
        lemma_member_miss(member_views(members@), name@);
    }
    None
}

proof fn lemma_member_hit(members: Seq<(Seq<char>, Seq<char>)>, name: Seq<char>, i: int)
    requires
        0 <= i < members.len(),
        members[i].0 == name,
        forall|j: int| 0 <= j < i ==> (#[trigger] members[j]).0 != name,
    ensures
        spec_member(members, name) == Some(members[i].1),
    decreases members.len(),
{
    if i > 0 {
        lemma_member_hit(members.drop_first(), name, i - 1);
    }
}

proof fn lemma_member_miss(members: Seq<(Seq<char>, Seq<char>)>, name: Seq<char>)
    requires
        forall|j: int| 0 <= j < members.len() ==> (#[trigger] members[j]).0 != name,
    ensures
        spec_member(members, name) is None,
    decreases members.len(),
{
    if members.len() > 0 {
        lemma_member_miss(members.drop_first(), name);
    }
}

} // verus!
