//! Template substitution engine.
//!
//! A template is a string of literal text interleaved with placeholder and
//! optional-block syntax.  Four characters are structural: `{`, `}`, `?` and
//! `\`.  A bare placeholder `{name}` is looked up verbatim in the value map.
//! An optional block `{?...}` emits its whole contents (including literal
//! text before a nested placeholder) only if the placeholders inside it
//! resolve; otherwise the block vanishes silently.  `\{`, `\}` and `\?`
//! produce the literal character.  A backslash followed by any other
//! character consumes both and emits nothing; this asymmetry is the observed
//! behaviour of the engine and is kept deliberately.
//!
//! Resolution is a single left-to-right scan over the template, maintaining
//! an output accumulator, a pending-literal buffer, a pending-optional
//! buffer, a nesting-depth counter and an "inside optional" flag.  The spec
//! function [`resolve_from`] is the authoritative statement of that scan;
//! [`parse_template`] is the executable resolver, proved to return exactly
//! what the scan describes.

use vstd::hash_map::StringHashMap;
use vstd::prelude::*;

use crate::strutil::map_view;
use crate::strutil::push_str_chars;
use crate::strutil::string_from_chars;

verus! {

/// The template error type.
#[derive(Debug, PartialEq, Eq)]
pub enum HalpTemplateError {
    /// An opening brace was never closed.  Carries an approximate offset:
    /// the length of the output produced up to the end of the scan.
    MissingClosingBract(usize),
    /// A closing brace at nesting depth zero with no pending placeholder
    /// name.  Carries the length of the output produced so far.
    MissingOpeningBract(usize),
    /// Declared for completeness of the taxonomy but never produced: a `}`
    /// with an empty pending name inside a nested group is treated as a
    /// harmless nesting closure, not an error.
    MissingPlaceholder(usize),
    /// A placeholder outside any optional block whose name has no entry in
    /// the value map.  Carries the offending name.
    NoSuhPlaceholder(String),
}

/// Mathematical counterpart of [`HalpTemplateError`]: positions are `int`,
/// names are `Seq<char>`.
pub enum SpecTemplateError {
    /// See [`HalpTemplateError::MissingClosingBract`].
    MissingClosingBract(int),
    /// See [`HalpTemplateError::MissingOpeningBract`].
    MissingOpeningBract(int),
    /// See [`HalpTemplateError::MissingPlaceholder`].
    MissingPlaceholder(int),
    /// See [`HalpTemplateError::NoSuhPlaceholder`].
    NoSuhPlaceholder(Seq<char>),
}

impl View for HalpTemplateError {
    type V = SpecTemplateError;

    open spec fn view(&self) -> SpecTemplateError {
        match self {
            HalpTemplateError::MissingClosingBract(pos) => SpecTemplateError::MissingClosingBract(
                *pos as int,
            ),
            HalpTemplateError::MissingOpeningBract(pos) => SpecTemplateError::MissingOpeningBract(
                *pos as int,
            ),
            HalpTemplateError::MissingPlaceholder(pos) => SpecTemplateError::MissingPlaceholder(
                *pos as int,
            ),
            HalpTemplateError::NoSuhPlaceholder(name) => SpecTemplateError::NoSuhPlaceholder(
                name@,
            ),
        }
    }
}

/// The four characters with structural meaning in a template.
pub open spec fn is_structural(c: char) -> bool {
    c == '{' || c == '}' || c == '?' || c == '\\'
}

/// The transient state of one resolution scan: the output accumulator, the
/// pending-literal buffer, the pending-optional buffer, the "inside
/// optional" flag and the nesting-depth counter.
#[verifier::ext_equal]
pub struct ResolveState {
    /// Output accumulated so far.
    pub out: Seq<char>,
    /// Literal text collected since the last structural character.
    pub buf: Seq<char>,
    /// Literal text captured inside an optional block, emitted only when
    /// that block resolves.
    pub opt_buf: Seq<char>,
    /// Whether the scan is inside an optional block.
    pub optional: bool,
    /// Count of currently open, unmatched `{` groups.
    pub depth: int,
}

/// The state at the start of a resolution scan.
pub open spec fn init_state() -> ResolveState {
    ResolveState {
        out: Seq::<char>::empty(),
        buf: Seq::<char>::empty(),
        opt_buf: Seq::<char>::empty(),
        optional: false,
        depth: 0,
    }
}

/// One left-to-right scan over the remaining template `t`, in state `st`,
/// against the value map `m`.  This is the authoritative definition of
/// template resolution; every clause mirrors one structural character.
pub open spec fn resolve_from(
    t: Seq<char>,
    m: Map<Seq<char>, Seq<char>>,
    st: ResolveState,
) -> Result<Seq<char>, SpecTemplateError>
    decreases t.len(),
{
    if t.len() == 0 {
        let out = st.out + st.buf;
        if st.depth != 0 {
            Err(SpecTemplateError::MissingClosingBract(out.len() as int))
        } else {
            Ok(out)
        }
    } else {
        let c = t[0];
        if c == '\\' {
            if t.len() == 1 {
                resolve_from(t.skip(1), m, ResolveState { buf: st.buf.push('\\'), ..st })
            } else if t[1] == '{' || t[1] == '}' || t[1] == '?' {
                resolve_from(t.skip(2), m, ResolveState { buf: st.buf.push(t[1]), ..st })
            } else {
                resolve_from(t.skip(2), m, st)
            }
        } else if c == '{' {
            if st.optional {
                resolve_from(
                    t.skip(1),
                    m,
                    ResolveState {
                        opt_buf: st.opt_buf + st.buf,
                        buf: Seq::<char>::empty(),
                        depth: st.depth + 1,
                        ..st
                    },
                )
            } else {
                resolve_from(
                    t.skip(1),
                    m,
                    ResolveState {
                        out: st.out + st.buf,
                        buf: Seq::<char>::empty(),
                        depth: st.depth + 1,
                        ..st
                    },
                )
            }
        } else if c == '}' {
            let key = st.buf;
            if key.len() == 0 {
                if st.depth == 0 {
                    Err(SpecTemplateError::MissingOpeningBract(st.out.len() as int))
                } else {
                    resolve_from(t.skip(1), m, ResolveState { depth: st.depth - 1, ..st })
                }
            } else if m.contains_key(key) {
                resolve_from(
                    t.skip(1),
                    m,
                    ResolveState {
                        out: st.out + st.opt_buf + m[key],
                        buf: Seq::<char>::empty(),
                        opt_buf: Seq::<char>::empty(),
                        optional: false,
                        depth: st.depth - 1,
                    },
                )
            } else if !st.optional {
                Err(SpecTemplateError::NoSuhPlaceholder(key))
            } else {
                resolve_from(
                    t.skip(1),
                    m,
                    ResolveState {
                        buf: Seq::<char>::empty(),
                        opt_buf: Seq::<char>::empty(),
                        depth: st.depth - 1,
                        ..st
                    },
                )
            }
        } else if c == '?' {
            resolve_from(t.skip(1), m, ResolveState { optional: true, ..st })
        } else {
            resolve_from(t.skip(1), m, ResolveState { buf: st.buf.push(c), ..st })
        }
    }
}

/// What resolving the template `t` against the value map `m` yields.
pub open spec fn resolve_spec(t: Seq<char>, m: Map<Seq<char>, Seq<char>>) -> Result<
    Seq<char>,
    SpecTemplateError,
> {
    resolve_from(t, m, init_state())
}

/// The character-level contents of a resolution result.
pub open spec fn template_result_view(r: Result<String, HalpTemplateError>) -> Result<
    Seq<char>,
    SpecTemplateError,
> {
    match r {
        Ok(s) => Ok(s@),
        Err(e) => Err(e@),
    }
}

/// Parses the template string and replaces the correct values from the
/// values map.
///
/// The result is exactly what the scan [`resolve_spec`] describes: literal
/// text is copied, `{name}` placeholders are replaced by their value,
/// optional blocks vanish when their placeholders are absent, and the first
/// structural error aborts the whole resolution.
pub fn parse_template(template: &str, values_map: &StringHashMap<String>) -> (result: Result<
    String,
    HalpTemplateError,
>)
    ensures
        template_result_view(result) == resolve_spec(template@, map_view(values_map@)),
{
    let ghost m = map_view(values_map@);
    let n = template.unicode_len();
    let mut out: Vec<char> = Vec::new();
    let mut buf: Vec<char> = Vec::new();
    let mut op_buf: Vec<char> = Vec::new();
    let mut optional = false;
    let mut depth: i128 = 0;
    let mut i: usize = 0;
    proof {
        assert(template@.skip(0) =~= template@);
        assert(ResolveState {
            out: out@,
            buf: buf@,
            opt_buf: op_buf@,
            optional: optional,
            depth: depth as int,
        } =~= init_state());
    }
    while i < n
        invariant
            n == template@.len(),
            i <= n,
            -(i as int) <= depth as int <= i as int,
            resolve_from(
                template@.skip(i as int),
                m,
                ResolveState {
                    out: out@,
                    buf: buf@,
                    opt_buf: op_buf@,
                    optional: optional,
                    depth: depth as int,
                },
            ) == resolve_spec(template@, m),
            m == map_view(values_map@),
        decreases n - i,
    {
        let ghost s = template@.skip(i as int);
        let ghost st = ResolveState {
            out: out@,
            buf: buf@,
            opt_buf: op_buf@,
            optional: optional,
            depth: depth as int,
        };
        let c = template.get_char(i);
        proof {
            assert(s[0] == c);
            assert(s.skip(1) =~= template@.skip(i as int + 1));
        }
        if c == '\\' {
            if i + 1 == n {
                buf.push('\\');
                i = i + 1;
            } else {
                let nc = template.get_char(i + 1);
                proof {
                    assert(s[1] == nc);
                    assert(s.skip(2) =~= template@.skip(i as int + 2));
                }
                if nc == '{' || nc == '}' || nc == '?' {
                    buf.push(nc);
                }
                i = i + 2;
            }
        } else if c == '{' {
            depth = depth + 1;
            if optional {
                op_buf.append(&mut buf);
            } else {
                out.append(&mut buf);
            }
            i = i + 1;
        } else if c == '}' {
            if buf.len() == 0 {
                if depth == 0 {
                    return Err(HalpTemplateError::MissingOpeningBract(out.len()));
                }
                depth = depth - 1;
                i = i + 1;
            } else {
                let key = string_from_chars(&buf);
                let looked_up = values_map.get(key.as_str());
                match looked_up {
                    Some(val) => {
                        proof {
                            assert(m.contains_key(key@) && m[key@] == val@);
                        }
                        out.append(&mut op_buf);
                        push_str_chars(&mut out, val.as_str());
                        optional = false;
                    },
                    None => {
                        proof {
                            assert(!m.contains_key(key@));
                        }
                        if !optional {
                            return Err(HalpTemplateError::NoSuhPlaceholder(key));
                        }
                    },
                }
                buf = Vec::new();
                op_buf = Vec::new();
                depth = depth - 1;
                i = i + 1;
            }
        } else if c == '?' {
            optional = true;
            i = i + 1;
        } else {
            buf.push(c);
            i = i + 1;
        }
    }
    proof {
        assert(template@.skip(i as int) =~= Seq::<char>::empty());
    }
    out.append(&mut buf);
    if depth != 0 {
        Err(HalpTemplateError::MissingClosingBract(out.len()))
    } else {
        Ok(string_from_chars(&out))
    }
}

} // verus!
