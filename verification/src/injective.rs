use crate::envelope::{envelope_bytes, envelope_text, escape, escaped, items, needs_escape, quoted};
use vstd::prelude::*;
use vstd::utf8::{encode_utf8, encode_utf8_decode_utf8};

verus! {

/// Two texts of equal length that start two equal concatenations are equal, and
/// so are the texts that follow them.
pub proof fn lemma_concat_parts<T>(p: Seq<T>, x: Seq<T>, q: Seq<T>, y: Seq<T>)
    requires
        p + x == q + y,
        p.len() == q.len(),
    ensures
        p == q,
        x == y,
{
    assert(p =~= (p + x).subrange(0, p.len() as int));
    assert(x =~= (p + x).subrange(p.len() as int, (p + x).len() as int));
}

/// No escape is the beginning of another: where two characters' escapes, each
/// followed by any text, give the same text, the characters are the same and
/// so is what follows.
pub proof fn lemma_escape_prefix_free(a: char, b: char, x: Seq<char>, y: Seq<char>)
    requires
        escape(a) + x == escape(b) + y,
    ensures
        a == b,
        x == y,
{
    let l = escape(a) + x;
    assert(l[0] == escape(a)[0]);
    if needs_escape(a) {
        assert(l[1] == escape(a)[1]);
    }
    lemma_concat_parts(escape(a), x, escape(b), y);
}

/// An escaped identifier ends at the first quotation mark that is not part of
/// an escape: where two escaped identifiers, each followed by a quotation mark
/// and any text, give the same text, the identifiers are the same and so is
/// what follows.
pub proof fn lemma_escaped_closed(s: Seq<char>, t: Seq<char>, x: Seq<char>, y: Seq<char>)
    requires
        escaped(s) + seq!['"'] + x == escaped(t) + seq!['"'] + y,
    ensures
        s == t,
        x == y,
    decreases s.len(),
{
    let l = escaped(s) + seq!['"'] + x;
    let r = escaped(t) + seq!['"'] + y;
    if s.len() == 0 {
        assert(l[0] == '"');
        lemma_concat_parts(seq!['"'], x, seq!['"'], y);
    } else if t.len() == 0 {
        assert(r[0] == '"');
    } else {
        let l_rest = escaped(s.drop_first()) + seq!['"'] + x;
        let r_rest = escaped(t.drop_first()) + seq!['"'] + y;
        assert(l =~= escape(s[0]) + l_rest);
        assert(r =~= escape(t[0]) + r_rest);
        lemma_escape_prefix_free(s[0], t[0], l_rest, r_rest);
        lemma_escaped_closed(s.drop_first(), t.drop_first(), x, y);
        assert(s =~= seq![s[0]] + s.drop_first());
    }
}

/// No quoted identifier is the beginning of another.
pub proof fn lemma_quoted_prefix_free(s: Seq<char>, t: Seq<char>, x: Seq<char>, y: Seq<char>)
    requires
        quoted(s) + x == quoted(t) + y,
    ensures
        s == t,
        x == y,
{
    let l_rest = escaped(s) + seq!['"'] + x;
    let r_rest = escaped(t) + seq!['"'] + y;
    assert(quoted(s) + x =~= seq!['"'] + l_rest);
    assert(quoted(t) + y =~= seq!['"'] + r_rest);
    lemma_concat_parts(seq!['"'], l_rest, seq!['"'], r_rest);
    lemma_escaped_closed(s, t, x, y);
}

/// A list of items ends at its closing bracket: where the items of two lists,
/// each followed by a closing bracket and any text, give the same text, the
/// lists are the same and so is what follows.
pub proof fn lemma_items_closed(a: Seq<Seq<char>>, b: Seq<Seq<char>>, x: Seq<char>, y: Seq<char>)
    requires
        items(a) + seq![']'] + x == items(b) + seq![']'] + y,
    ensures
        a == b,
        x == y,
    decreases a.len(),
{
    let l = items(a) + seq![']'] + x;
    let r = items(b) + seq![']'] + y;
    if a.len() == 0 {
        assert(l[0] == ']');
        lemma_concat_parts(seq![']'], x, seq![']'], y);
    } else if b.len() == 0 {
        assert(r[0] == ']');
    } else {
        let l_rest = if a.len() == 1 {
            seq![']'] + x
        } else {
            seq![','] + (items(a.drop_first()) + seq![']'] + x)
        };
        let r_rest = if b.len() == 1 {
            seq![']'] + y
        } else {
            seq![','] + (items(b.drop_first()) + seq![']'] + y)
        };
        assert(l =~= quoted(a[0]) + l_rest);
        assert(r =~= quoted(b[0]) + r_rest);
        lemma_quoted_prefix_free(a[0], b[0], l_rest, r_rest);
        assert(l_rest[0] == r_rest[0]);
        if a.len() == 1 {
            lemma_concat_parts(seq![']'], x, seq![']'], y);
        } else {
            lemma_concat_parts(
                seq![','],
                items(a.drop_first()) + seq![']'] + x,
                seq![','],
                items(b.drop_first()) + seq![']'] + y,
            );
            lemma_items_closed(a.drop_first(), b.drop_first(), x, y);
            assert(a =~= seq![a[0]] + a.drop_first());
        }
    }
}

/// Different lists of identifiers have different envelopes: the envelope keeps
/// every identifier and their order.
pub proof fn lemma_envelope_text_injective(a: Seq<Seq<char>>, b: Seq<Seq<char>>)
    requires
        envelope_text(a) == envelope_text(b),
    ensures
        a == b,
{
    let l_rest = items(a) + seq![']'] + Seq::<char>::empty();
    let r_rest = items(b) + seq![']'] + Seq::<char>::empty();
    assert(envelope_text(a) =~= seq!['['] + l_rest);
    assert(envelope_text(b) =~= seq!['['] + r_rest);
    lemma_concat_parts(seq!['['], l_rest, seq!['['], r_rest);
    lemma_items_closed(a, b, Seq::empty(), Seq::empty());
}

/// Different texts have different UTF-8 encodings.
pub proof fn lemma_utf8_injective(s: Seq<char>, t: Seq<char>)
    requires
        encode_utf8(s) == encode_utf8(t),
    ensures
        s == t,
{
    encode_utf8_decode_utf8(s);
    encode_utf8_decode_utf8(t);
}

/// Different lists of identifiers have different envelope bytes.
pub proof fn lemma_envelope_bytes_injective(a: Seq<Seq<char>>, b: Seq<Seq<char>>)
    requires
        envelope_bytes(a) == envelope_bytes(b),
    ensures
        a == b,
{
    lemma_utf8_injective(envelope_text(a), envelope_text(b));
    lemma_envelope_text_injective(a, b);
}

} // verus!
