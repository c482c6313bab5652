//! Command splitter: tokenizes a raw command-line string into a small set of
//! named string values.
//!
//! The command string is expected to be in the format
//! `<cmd> [<subcommand>] [<args>]`; the subcommand and args are optional.
//! The splitter adds at least the `cmd` key to the value map and three keys
//! at most:
//!
//! - `cmd`: the command name (the first token);
//! - `subcommand`: the first remaining token that does not start with `-`,
//!   if the map does not already hold a `subcommand`;
//! - `args`: every other token, separated by single spaces.

use vstd::hash_map::StringHashMap;
use vstd::prelude::*;

use crate::strutil::is_space;
use crate::strutil::is_space_char;
use crate::strutil::string_from_chars;
use crate::strutil::strings_view;
use crate::strutil::lemma_map_view_insert;
use crate::strutil::map_view;

verus! {

/// Whitespace splitting with the current token accumulated in `cur`: the
/// tokens of `cur + s`, where `cur` holds the non-space characters read
/// since the last space.
pub open spec fn split_ws_rec(s: Seq<char>, cur: Seq<char>) -> Seq<Seq<char>>
    decreases s.len(),
{
    if s.len() == 0 {
        if cur.len() == 0 {
            Seq::<Seq<char>>::empty()
        } else {
            seq![cur]
        }
    } else if is_space(s[0]) {
        if cur.len() == 0 {
            split_ws_rec(s.skip(1), Seq::<char>::empty())
        } else {
            seq![cur] + split_ws_rec(s.skip(1), Seq::<char>::empty())
        }
    } else {
        split_ws_rec(s.skip(1), cur.push(s[0]))
    }
}

/// The whitespace-separated tokens of `s`, in order.
pub open spec fn split_ws(s: Seq<char>) -> Seq<Seq<char>> {
    split_ws_rec(s, Seq::<char>::empty())
}

/// How one token after the first is placed into the value map: a token not
/// starting with `-` becomes the `subcommand` if that key is still free;
/// otherwise the token starts `args` or is appended to it with a single
/// space.
pub open spec fn place_token(m: Map<Seq<char>, Seq<char>>, t: Seq<char>) -> Map<
    Seq<char>,
    Seq<char>,
> {
    if !(t.len() > 0 && t[0] == '-') && !m.contains_key("subcommand"@) {
        m.insert("subcommand"@, t)
    } else if !m.contains_key("args"@) {
        m.insert("args"@, t)
    } else {
        m.insert("args"@, m["args"@] + " "@ + t)
    }
}

/// [`place_token`] folded over a sequence of tokens, left to right.
pub open spec fn place_tokens(m: Map<Seq<char>, Seq<char>>, toks: Seq<Seq<char>>) -> Map<
    Seq<char>,
    Seq<char>,
>
    decreases toks.len(),
{
    if toks.len() == 0 {
        m
    } else {
        place_tokens(place_token(m, toks[0]), toks.skip(1))
    }
}

/// The value map after splitting `line` into tokens, binding the first to
/// `cmd` and placing the rest.
pub open spec fn split_cmd(line: Seq<char>, m: Map<Seq<char>, Seq<char>>) -> Map<
    Seq<char>,
    Seq<char>,
> {
    let toks = split_ws(line);
    place_tokens(m.insert("cmd"@, toks[0]), toks.skip(1))
}

/// Parses a command string into a value map that contains the command
/// parts, under the keys `cmd`, `subcommand` and `args`.
///
/// Keys already present in `values_map` count as taken: a prior
/// `subcommand` entry sends the first plain token to `args` instead.
///
/// The command string must contain at least one whitespace-separated token;
/// that is the caller's obligation, not a recoverable error.
pub fn parse_cmd(cmd: &str, values_map: &mut StringHashMap<String>)
    requires
        split_ws(cmd@).len() > 0,
    ensures
        map_view(final(values_map)@) == split_cmd(cmd@, map_view(old(values_map)@)),
{
    let ghost m_start = map_view(values_map@);
    let n = cmd.unicode_len();
    let mut tokens: Vec<String> = Vec::new();
    let mut cur: Vec<char> = Vec::new();
    let mut i: usize = 0;
    proof {
        assert(cmd@.skip(0) =~= cmd@);
        assert(strings_view(tokens@) + split_ws_rec(cmd@, cur@) =~= split_ws(cmd@));
    }
    while i < n
        invariant
            n == cmd@.len(),
            i <= n,
            split_ws(cmd@) == strings_view(tokens@) + split_ws_rec(cmd@.skip(i as int), cur@),
        decreases n - i,
    {
        let ghost s = cmd@.skip(i as int);
        let ghost old_tokens = tokens@;
        let ghost old_cur = cur@;
        let c = cmd.get_char(i);
        proof {
            assert(s[0] == c);
            assert(s.skip(1) =~= cmd@.skip(i as int + 1));
        }
        if is_space_char(c) {
            if cur.len() > 0 {
                let t = string_from_chars(&cur);
                tokens.push(t);
                cur = Vec::new();
                proof {
                    assert(strings_view(tokens@) =~= strings_view(old_tokens) + seq![old_cur]);
                    assert(strings_view(tokens@) + split_ws_rec(cmd@.skip(i as int + 1), cur@)
                        =~= strings_view(old_tokens) + (seq![old_cur] + split_ws_rec(
                        cmd@.skip(i as int + 1),
                        Seq::<char>::empty(),
                    )));
                }
            } else {
                proof {
                    assert(cur@ =~= Seq::<char>::empty());
                }
            }
        } else {
            cur.push(c);
        }
        i = i + 1;
    }
    proof {
        assert(cmd@.skip(n as int) =~= Seq::<char>::empty());
    }
    if cur.len() > 0 {
        let ghost old_tokens = tokens@;
        let ghost old_cur = cur@;
        let t = string_from_chars(&cur);
        tokens.push(t);
        proof {
            assert(strings_view(tokens@) =~= strings_view(old_tokens) + seq![old_cur]);
        }
    }
    proof {
        assert(strings_view(tokens@) =~= split_ws(cmd@));
    }
    let ghost toks = split_ws(cmd@);
    let first = tokens[0].clone();
    values_map.insert(String::from_str("cmd"), first);
    proof {
        lemma_map_view_insert(old(values_map)@, "cmd"@, first);
        assert(map_view(values_map@) =~= m_start.insert("cmd"@, toks[0]));
        assert(strings_view(tokens@).skip(1) =~= toks.skip(1));
    }
    let mut k: usize = 1;
    while k < tokens.len()
        invariant
            1 <= k <= tokens@.len(),
            strings_view(tokens@) == split_ws(cmd@),
            split_cmd(cmd@, m_start) == place_tokens(
                map_view(values_map@),
                strings_view(tokens@).skip(k as int),
            ),
        decreases tokens@.len() - k,
    {
        let ghost mv = map_view(values_map@);
        let ghost rest = strings_view(tokens@).skip(k as int);
        let ghost t_spec = strings_view(tokens@)[k as int];
        proof {
            assert(rest[0] == t_spec);
            assert(rest.skip(1) =~= strings_view(tokens@).skip(k as int + 1));
            assert(place_tokens(mv, rest) == place_tokens(place_token(mv, t_spec), rest.skip(1)));
        }
        let t = &tokens[k];
        proof {
            assert(t@ == t_spec);
        }
        let dash = t.as_str().unicode_len() > 0 && t.as_str().get_char(0) == '-';
        proof {
            assert(dash == (t_spec.len() > 0 && t_spec[0] == '-'));
        }
        if !dash && !values_map.contains_key("subcommand") {
            let ghost before = values_map@;
            values_map.insert(String::from_str("subcommand"), t.clone());
            proof {
                lemma_map_view_insert(before, "subcommand"@, tokens@[k as int]);
                assert(map_view(values_map@) =~= place_token(mv, t_spec));
            }
        } else if !values_map.contains_key("args") {
            let ghost before = values_map@;
            values_map.insert(String::from_str("args"), t.clone());
            proof {
                lemma_map_view_insert(before, "args"@, tokens@[k as int]);
                assert(map_view(values_map@) =~= place_token(mv, t_spec));
            }
        } else {
            let got = values_map.get("args");
            let mut appended: String = match got {
                Some(v) => v.clone(),
                None => String::new(),
            };
            proof {
                assert(mv.contains_key("args"@));
                assert(appended@ == mv["args"@]);
            }
            appended.append(" ");
            appended.append(t.as_str());
            let ghost before = values_map@;
            let ghost appended_now = appended;
            values_map.insert(String::from_str("args"), appended);
            proof {
                lemma_map_view_insert(before, "args"@, appended_now);
                assert(appended_now@ == mv["args"@] + " "@ + t_spec);
                assert(map_view(values_map@) =~= place_token(mv, t_spec));
            }
        }
        k = k + 1;
    }
    proof {
        assert(strings_view(tokens@).skip(tokens@.len() as int) =~= Seq::<Seq<char>>::empty());
    }
}

} // verus!
