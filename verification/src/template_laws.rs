//! Laws of the template substitution engine.
//!
//! These proof functions state, once and for all inputs, how
//! [`crate::template::resolve_spec`] treats the main shapes of template:
//! pure literal text, escaped structural characters, present placeholders,
//! optional blocks with absent placeholders, and unmatched braces.
//! [`crate::template::parse_template`] returns exactly what `resolve_spec`
//! describes, so each law carries over to the executable resolver.

use vstd::prelude::*;

use crate::template::HalpTemplateError;
use crate::template::ResolveState;
use crate::template::SpecTemplateError;
use crate::template::init_state;
use crate::template::is_structural;
use crate::template::resolve_from;
use crate::template::resolve_spec;

verus! {

/// Text with no structural character: nothing in it is a brace, a question
/// mark or a backslash.
pub open spec fn literal_only(s: Seq<char>) -> bool {
    forall|i: int| 0 <= i < s.len() ==> !is_structural(#[trigger] s[i])
}

/// A character that an escape sequence can produce.
pub open spec fn is_escapable(c: char) -> bool {
    c == '{' || c == '}' || c == '?'
}

/// Text in which every structural character is properly escaped: each
/// backslash is followed by `{`, `}` or `?`, and no structural character
/// stands on its own.
pub open spec fn properly_escaped(t: Seq<char>) -> bool
    decreases t.len(),
{
    if t.len() == 0 {
        true
    } else if t[0] == '\\' {
        t.len() >= 2 && is_escapable(t[1]) && properly_escaped(t.skip(2))
    } else {
        !is_structural(t[0]) && properly_escaped(t.skip(1))
    }
}

/// The text with one backslash stripped from each escape sequence.
pub open spec fn unescape(t: Seq<char>) -> Seq<char>
    decreases t.len(),
{
    if t.len() == 0 {
        Seq::<char>::empty()
    } else if t[0] == '\\' && t.len() >= 2 {
        seq![t[1]] + unescape(t.skip(2))
    } else {
        seq![t[0]] + unescape(t.skip(1))
    }
}

/// Scanning a run of literal characters only extends the pending-literal
/// buffer: the rest of the template is then resolved from the same state
/// with the run appended to that buffer.
proof fn lemma_literal_run(
    lit: Seq<char>,
    rest: Seq<char>,
    m: Map<Seq<char>, Seq<char>>,
    st: ResolveState,
)
    requires
        literal_only(lit),
    ensures
        resolve_from(lit + rest, m, st) == resolve_from(
            rest,
            m,
            (ResolveState { buf: st.buf + lit, ..st }),
        ),
    decreases lit.len(),
{
    if lit.len() == 0 {
        assert(lit + rest =~= rest);
        assert((ResolveState { buf: st.buf + lit, ..st }) =~= st);
    } else {
        let c = lit[0];
        assert((lit + rest)[0] == c);
        assert(!is_structural(c));
        assert((lit + rest).skip(1) =~= lit.skip(1) + rest);
        assert(literal_only(lit.skip(1))) by {
            assert forall|i: int| 0 <= i < lit.skip(1).len() implies !is_structural(
                #[trigger] lit.skip(1)[i],
            ) by {
                assert(lit.skip(1)[i] == lit[i + 1]);
            }
        }
        lemma_literal_run(lit.skip(1), rest, m, ResolveState { buf: st.buf.push(c), ..st });
        assert(st.buf.push(c) + lit.skip(1) =~= st.buf + lit);
        assert((ResolveState { buf: st.buf.push(c) + lit.skip(1), ..st }) =~= (ResolveState {
            buf: st.buf + lit,
            ..st
        }));
    }
}

/// Scanning a properly escaped run only extends the pending-literal buffer,
/// with one backslash stripped from each escape sequence.
proof fn lemma_escaped_run(
    esc: Seq<char>,
    rest: Seq<char>,
    m: Map<Seq<char>, Seq<char>>,
    st: ResolveState,
)
    requires
        properly_escaped(esc),
    ensures
        resolve_from(esc + rest, m, st) == resolve_from(
            rest,
            m,
            (ResolveState { buf: st.buf + unescape(esc), ..st }),
        ),
    decreases esc.len(),
{
    if esc.len() == 0 {
        assert(esc + rest =~= rest);
        assert(st.buf + unescape(esc) =~= st.buf);
        assert((ResolveState { buf: st.buf + unescape(esc), ..st }) =~= st);
    } else if esc[0] == '\\' {
        let c = esc[1];
        assert((esc + rest)[0] == '\\');
        assert((esc + rest)[1] == c);
        assert((esc + rest).len() >= 2);
        assert((esc + rest).skip(2) =~= esc.skip(2) + rest);
        lemma_escaped_run(esc.skip(2), rest, m, ResolveState { buf: st.buf.push(c), ..st });
        assert(st.buf.push(c) + unescape(esc.skip(2)) =~= st.buf + unescape(esc));
        assert((ResolveState { buf: st.buf.push(c) + unescape(esc.skip(2)), ..st })
            =~= (ResolveState { buf: st.buf + unescape(esc), ..st }));
    } else {
        let c = esc[0];
        assert((esc + rest)[0] == c);
        assert(!is_structural(c));
        assert((esc + rest).skip(1) =~= esc.skip(1) + rest);
        lemma_escaped_run(esc.skip(1), rest, m, ResolveState { buf: st.buf.push(c), ..st });
        assert(st.buf.push(c) + unescape(esc.skip(1)) =~= st.buf + unescape(esc));
        assert((ResolveState { buf: st.buf.push(c) + unescape(esc.skip(1)), ..st })
            =~= (ResolveState { buf: st.buf + unescape(esc), ..st }));
    }
}

/// Pure literal passthrough: a template with no structural character
/// resolves, against any value map, to itself.
pub proof fn lemma_literal_passthrough(t: Seq<char>, m: Map<Seq<char>, Seq<char>>)
    requires
        literal_only(t),
    ensures
        resolve_spec(t, m) == Ok::<Seq<char>, SpecTemplateError>(t),
{
    lemma_literal_run(t, Seq::<char>::empty(), m, init_state());
    assert(t + Seq::<char>::empty() =~= t);
    assert(init_state().buf + t =~= t);
    assert(Seq::<char>::empty() + t =~= t);
}

/// Escape stripping: a template in which every structural character is
/// properly escaped resolves, against any value map, to the input with
/// exactly one backslash stripped per escape and all other characters
/// reproduced verbatim.
pub proof fn lemma_escaped_passthrough(t: Seq<char>, m: Map<Seq<char>, Seq<char>>)
    requires
        properly_escaped(t),
    ensures
        resolve_spec(t, m) == Ok::<Seq<char>, SpecTemplateError>(unescape(t)),
{
    lemma_escaped_run(t, Seq::<char>::empty(), m, init_state());
    assert(t + Seq::<char>::empty() =~= t);
    assert(init_state().buf + unescape(t) =~= unescape(t));
    assert(Seq::<char>::empty() + unescape(t) =~= unescape(t));
}

/// Placeholder substitution: a well-formed `{name}` placeholder whose name
/// is present in the value map is replaced by its value, exactly once, with
/// no residual braces.
pub proof fn lemma_placeholder_substitution(
    pre: Seq<char>,
    name: Seq<char>,
    post: Seq<char>,
    m: Map<Seq<char>, Seq<char>>,
)
    requires
        literal_only(pre),
        literal_only(name),
        literal_only(post),
        name.len() > 0,
        m.contains_key(name),
    ensures
        resolve_spec(pre + seq!['{'] + name + seq!['}'] + post, m) == Ok::<
            Seq<char>,
            SpecTemplateError,
        >(pre + m[name] + post),
{
    let t = pre + seq!['{'] + name + seq!['}'] + post;
    let r1 = seq!['{'] + (name + seq!['}'] + post);
    assert(t =~= pre + r1);
    lemma_literal_run(pre, r1, m, init_state());
    let st1 = ResolveState { buf: init_state().buf + pre, ..init_state() };
    assert(r1[0] == '{');
    assert(r1.skip(1) =~= name + (seq!['}'] + post));
    let st2 = ResolveState {
        out: st1.out + st1.buf,
        buf: Seq::<char>::empty(),
        depth: st1.depth + 1,
        ..st1
    };
    assert(resolve_from(r1, m, st1) == resolve_from(name + (seq!['}'] + post), m, st2));
    lemma_literal_run(name, seq!['}'] + post, m, st2);
    let st3 = ResolveState { buf: st2.buf + name, ..st2 };
    assert(st3.buf =~= name);
    let r3 = seq!['}'] + post;
    assert(r3[0] == '}');
    assert(r3.skip(1) =~= post);
    assert(st3.buf.len() > 0);
    assert(m.contains_key(st3.buf));
    let st4 = ResolveState {
        out: st3.out + st3.opt_buf + m[st3.buf],
        buf: Seq::<char>::empty(),
        opt_buf: Seq::<char>::empty(),
        optional: false,
        depth: st3.depth - 1,
    };
    assert(resolve_from(r3, m, st3) == resolve_from(post, m, st4));
    lemma_literal_run(post, Seq::<char>::empty(), m, st4);
    assert(post + Seq::<char>::empty() =~= post);
    let st5 = ResolveState { buf: st4.buf + post, ..st4 };
    assert(st5.depth == 0);
    assert(resolve_from(Seq::<char>::empty(), m, st5) == Ok::<Seq<char>, SpecTemplateError>(
        st5.out + st5.buf,
    ));
    assert(st5.out + st5.buf =~= pre + m[name] + post);
}

/// Optional block elision: a `{?...}` block whose inner placeholder is
/// absent from the value map contributes nothing, not even the literal text
/// inside it; in an otherwise literal template the output is exactly the
/// surrounding text, as if the block had never been written.
pub proof fn lemma_optional_block_dropped(
    pre: Seq<char>,
    inner: Seq<char>,
    name: Seq<char>,
    post: Seq<char>,
    m: Map<Seq<char>, Seq<char>>,
)
    requires
        literal_only(pre),
        literal_only(inner),
        literal_only(name),
        literal_only(post),
        name.len() > 0,
        !m.contains_key(name),
    ensures
        resolve_spec(
            pre + seq!['{', '?'] + inner + seq!['{'] + name + seq!['}', '}'] + post,
            m,
        ) == Ok::<Seq<char>, SpecTemplateError>(pre + post),
        resolve_spec(
            pre + seq!['{', '?'] + inner + seq!['{'] + name + seq!['}', '}'] + post,
            m,
        ) == resolve_spec(pre + post, m),
{
    let t = pre + seq!['{', '?'] + inner + seq!['{'] + name + seq!['}', '}'] + post;
    let r1 = seq!['{'] + (seq!['?'] + (inner + (seq!['{'] + (name + (seq!['}'] + (seq![
        '}',
    ] + post))))));
    assert(t =~= pre + r1);
    lemma_literal_run(pre, r1, m, init_state());
    let st1 = ResolveState { buf: init_state().buf + pre, ..init_state() };
    assert(r1[0] == '{');
    let r2 = seq!['?'] + (inner + (seq!['{'] + (name + (seq!['}'] + (seq!['}'] + post)))));
    assert(r1.skip(1) =~= r2);
    let st2 = ResolveState {
        out: st1.out + st1.buf,
        buf: Seq::<char>::empty(),
        depth: st1.depth + 1,
        ..st1
    };
    assert(resolve_from(r1, m, st1) == resolve_from(r2, m, st2));
    assert(r2[0] == '?');
    let r3 = inner + (seq!['{'] + (name + (seq!['}'] + (seq!['}'] + post))));
    assert(r2.skip(1) =~= r3);
    let st3 = ResolveState { optional: true, ..st2 };
    assert(resolve_from(r2, m, st2) == resolve_from(r3, m, st3));
    lemma_literal_run(inner, seq!['{'] + (name + (seq!['}'] + (seq!['}'] + post))), m, st3);
    let st4 = ResolveState { buf: st3.buf + inner, ..st3 };
    let r4 = seq!['{'] + (name + (seq!['}'] + (seq!['}'] + post)));
    assert(r4[0] == '{');
    let r5 = name + (seq!['}'] + (seq!['}'] + post));
    assert(r4.skip(1) =~= r5);
    assert(st4.optional);
    let st5 = ResolveState {
        opt_buf: st4.opt_buf + st4.buf,
        buf: Seq::<char>::empty(),
        depth: st4.depth + 1,
        ..st4
    };
    assert(resolve_from(r4, m, st4) == resolve_from(r5, m, st5));
    lemma_literal_run(name, seq!['}'] + (seq!['}'] + post), m, st5);
    let st6 = ResolveState { buf: st5.buf + name, ..st5 };
    assert(st6.buf =~= name);
    let r6 = seq!['}'] + (seq!['}'] + post);
    assert(r6[0] == '}');
    let r7 = seq!['}'] + post;
    assert(r6.skip(1) =~= r7);
    assert(st6.buf.len() > 0);
    assert(!m.contains_key(st6.buf));
    assert(st6.optional);
    let st7 = ResolveState {
        buf: Seq::<char>::empty(),
        opt_buf: Seq::<char>::empty(),
        depth: st6.depth - 1,
        ..st6
    };
    assert(resolve_from(r6, m, st6) == resolve_from(r7, m, st7));
    assert(r7[0] == '}');
    assert(r7.skip(1) =~= post);
    assert(st7.buf.len() == 0);
    assert(st7.depth == 1);
    let st8 = ResolveState { depth: st7.depth - 1, ..st7 };
    assert(resolve_from(r7, m, st7) == resolve_from(post, m, st8));
    lemma_literal_run(post, Seq::<char>::empty(), m, st8);
    assert(post + Seq::<char>::empty() =~= post);
    let st9 = ResolveState { buf: st8.buf + post, ..st8 };
    assert(st9.depth == 0);
    assert(resolve_from(Seq::<char>::empty(), m, st9) == Ok::<Seq<char>, SpecTemplateError>(
        st9.out + st9.buf,
    ));
    assert(st9.out + st9.buf =~= pre + post);
    assert(literal_only(pre + post)) by {
        assert forall|i: int| 0 <= i < (pre + post).len() implies !is_structural(
            #[trigger] (pre + post)[i],
        ) by {
            if i < pre.len() {
                assert((pre + post)[i] == pre[i]);
            } else {
                assert((pre + post)[i] == post[i - pre.len()]);
            }
        }
    }
    lemma_literal_passthrough(pre + post, m);
}

/// Unmatched opening brace: a `{` that is never closed makes resolution
/// fail with a missing-closing-brace error carrying the length of the
/// output produced, here the surrounding literal text.
pub proof fn lemma_unclosed_brace_fails(
    pre: Seq<char>,
    post: Seq<char>,
    m: Map<Seq<char>, Seq<char>>,
)
    requires
        literal_only(pre),
        literal_only(post),
    ensures
        resolve_spec(pre + seq!['{'] + post, m) == Err::<Seq<char>, SpecTemplateError>(
            SpecTemplateError::MissingClosingBract(pre.len() + post.len() as int),
        ),
{
    let t = pre + seq!['{'] + post;
    let r1 = seq!['{'] + post;
    assert(t =~= pre + r1);
    lemma_literal_run(pre, r1, m, init_state());
    let st1 = ResolveState { buf: init_state().buf + pre, ..init_state() };
    assert(r1[0] == '{');
    assert(r1.skip(1) =~= post);
    let st2 = ResolveState {
        out: st1.out + st1.buf,
        buf: Seq::<char>::empty(),
        depth: st1.depth + 1,
        ..st1
    };
    assert(resolve_from(r1, m, st1) == resolve_from(post, m, st2));
    lemma_literal_run(post, Seq::<char>::empty(), m, st2);
    assert(post + Seq::<char>::empty() =~= post);
    let st3 = ResolveState { buf: st2.buf + post, ..st2 };
    assert(st3.depth == 1);
    assert((st3.out + st3.buf).len() == pre.len() + post.len());
}

/// Unmatched closing brace at the start of a template: whatever follows,
/// resolution fails at once with a missing-opening-brace error at output
/// position zero.
pub proof fn lemma_leading_closing_brace_fails(rest: Seq<char>, m: Map<Seq<char>, Seq<char>>)
    ensures
        resolve_spec(seq!['}'] + rest, m) == Err::<Seq<char>, SpecTemplateError>(
            SpecTemplateError::MissingOpeningBract(0),
        ),
{
    let t = seq!['}'] + rest;
    assert(t[0] == '}');
    assert(init_state().buf.len() == 0);
    assert(init_state().depth == 0);
}

/// Unmatched trailing closing brace: after a resolved placeholder at depth
/// zero, a further `}` fails with a missing-opening-brace error at the
/// length of the output produced so far, whatever follows it.
pub proof fn lemma_trailing_closing_brace_fails(
    pre: Seq<char>,
    name: Seq<char>,
    rest: Seq<char>,
    m: Map<Seq<char>, Seq<char>>,
)
    requires
        literal_only(pre),
        literal_only(name),
        name.len() > 0,
        m.contains_key(name),
    ensures
        resolve_spec(pre + seq!['{'] + name + seq!['}', '}'] + rest, m) == Err::<
            Seq<char>,
            SpecTemplateError,
        >(SpecTemplateError::MissingOpeningBract(pre.len() + m[name].len() as int)),
{
    let t = pre + seq!['{'] + name + seq!['}', '}'] + rest;
    let r1 = seq!['{'] + (name + (seq!['}'] + (seq!['}'] + rest)));
    assert(t =~= pre + r1);
    lemma_literal_run(pre, r1, m, init_state());
    let st1 = ResolveState { buf: init_state().buf + pre, ..init_state() };
    assert(r1[0] == '{');
    let r2 = name + (seq!['}'] + (seq!['}'] + rest));
    assert(r1.skip(1) =~= r2);
    let st2 = ResolveState {
        out: st1.out + st1.buf,
        buf: Seq::<char>::empty(),
        depth: st1.depth + 1,
        ..st1
    };
    assert(resolve_from(r1, m, st1) == resolve_from(r2, m, st2));
    lemma_literal_run(name, seq!['}'] + (seq!['}'] + rest), m, st2);
    let st3 = ResolveState { buf: st2.buf + name, ..st2 };
    assert(st3.buf =~= name);
    let r3 = seq!['}'] + (seq!['}'] + rest);
    assert(r3[0] == '}');
    let r4 = seq!['}'] + rest;
    assert(r3.skip(1) =~= r4);
    assert(st3.buf.len() > 0);
    assert(m.contains_key(st3.buf));
    let st4 = ResolveState {
        out: st3.out + st3.opt_buf + m[st3.buf],
        buf: Seq::<char>::empty(),
        opt_buf: Seq::<char>::empty(),
        optional: false,
        depth: st3.depth - 1,
    };
    assert(resolve_from(r3, m, st3) == resolve_from(r4, m, st4));
    assert(r4[0] == '}');
    assert(st4.buf.len() == 0);
    assert(st4.depth == 0);
    assert(resolve_from(r4, m, st4) == Err::<Seq<char>, SpecTemplateError>(
        SpecTemplateError::MissingOpeningBract(st4.out.len() as int),
    ));
    assert(st4.out.len() == pre.len() + m[name].len());
}

} // verus!
