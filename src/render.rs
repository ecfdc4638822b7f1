use vstd::prelude::*;

use crate::text::{append_chars, chars_of, slice_chars, string_of};

verus! {

pub open spec fn is_alnum(c: char) -> bool {
    ('a' <= c <= 'z') || ('A' <= c <= 'Z') || ('0' <= c <= '9')
}

/// End of the run of ASCII letters and digits that starts at `i`.
pub open spec fn alnum_end(s: Seq<char>, i: int) -> int
    decreases s.len() - i,
{
    if 0 <= i < s.len() && is_alnum(s[i]) {
        alnum_end(s, i + 1)
    } else {
        i
    }
}

pub proof fn lemma_alnum_end_bounds(s: Seq<char>, i: int)
    requires
        0 <= i,
    ensures
        alnum_end(s, i) >= i,
        i <= s.len() ==> alnum_end(s, i) <= s.len(),
        forall|k: int| i <= k < alnum_end(s, i) ==> is_alnum(#[trigger] s[k]),
    decreases s.len() - i,
{
    if 0 <= i < s.len() && is_alnum(s[i]) {
        lemma_alnum_end_bounds(s, i + 1);
    }
}

/// The text that the entity reference `&name;` stands for.
pub open spec fn decode_spec(name: Seq<char>) -> Seq<char> {
    if name.len() == 0 {
        seq!['&']
    } else if name == seq!['l', 't'] {
        seq!['<']
    } else if name == seq!['g', 't'] {
        seq!['>']
    } else {
        seq!['&'] + name + seq![';']
    }
}

/// What the renderer emits for `s[i..]`, starting inside markup when `in_tag`.
pub open spec fn render_from(s: Seq<char>, i: int, in_tag: bool) -> Seq<char>
    decreases s.len() - i,
    via render_from_decreases
{
    if i < 0 || i >= s.len() {
        Seq::empty()
    } else if s[i] == '<' {
        render_from(s, i + 1, true)
    } else if s[i] == '>' {
        render_from(s, i + 1, false)
    } else if in_tag {
        render_from(s, i + 1, true)
    } else if s[i] == '&' {
        let j = alnum_end(s, i + 1);
        if j < s.len() && s[j] == ';' {
            decode_spec(s.subrange(i + 1, j)) + render_from(s, j + 1, false)
        } else {
            seq!['&'] + render_from(s, i + 1, false)
        }
    } else {
        seq![s[i]] + render_from(s, i + 1, false)
    }
}

#[via_fn]
proof fn render_from_decreases(s: Seq<char>, i: int, in_tag: bool) {
    if 0 <= i < s.len() {
        lemma_alnum_end_bounds(s, i + 1);
    }
}

/// The displayed text of a body: markup removed, entity references decoded.
pub open spec fn render_spec(s: Seq<char>) -> Seq<char> {
    render_from(s, 0, false)
}

/// Scans the entity name that starts at `start`: the end of its run of ASCII
/// letters and digits.
pub fn parse_entity(s: &Vec<char>, start: usize) -> (r: usize)
    requires
        start <= s.len(),
    ensures
        r as int == alnum_end(s@, start as int),
        start <= r <= s.len(),
{
    let mut j = start;
    while j < s.len() && is_ascii_alnum(s[j])
        invariant
            start <= j <= s.len(),
            alnum_end(s@, start as int) == alnum_end(s@, j as int),
        decreases s.len() - j,
    {
        j = j + 1;
    }
    j
}

fn is_ascii_alnum(c: char) -> (r: bool)
    ensures
        r == is_alnum(c),
{
    ('a' <= c && c <= 'z') || ('A' <= c && c <= 'Z') || ('0' <= c && c <= '9')
}

/// The text that `&name;` stands for: `<` for `lt`, `>` for `gt`, a lone `&`
/// for an empty name, and the reference itself for any other name.
pub fn decode_entity(name: &Vec<char>) -> (r: Vec<char>)
    ensures
        r@ == decode_spec(name@),
{
    if name.len() == 0 {
        let r = vec!['&'];
        assert(r@ =~= seq!['&']);
        return r;
    }
    if name.len() == 2 && name[0] == 'l' && name[1] == 't' {
        assert(name@ =~= seq!['l', 't']);
        let r = vec!['<'];
        assert(r@ =~= seq!['<']);
        return r;
    }
    if name.len() == 2 && name[0] == 'g' && name[1] == 't' {
        assert(name@ =~= seq!['g', 't']);
        let r = vec!['>'];
        assert(r@ =~= seq!['>']);
        return r;
    }
    assert(name@ != seq!['l', 't'] && name@ != seq!['g', 't']) by {
        if name@ == seq!['l', 't'] || name@ == seq!['g', 't'] {
            assert(name@.len() == 2);
            assert(name@[0] == name[0]);
        }
    }
    let mut r = vec!['&'];
    append_chars(&mut r, name);
    r.push(';');
    assert(r@ =~= seq!['&'] + name@ + seq![';']);
    r
}

/// Renders a body as plain text: characters between `<` and `>` are dropped,
/// `&lt;` and `&gt;` are decoded, other entity references are kept as written.
pub fn show(body: &str) -> (r: String)
    ensures
        r@ == render_spec(body@),
{
    let s = chars_of(body);
    let mut out: Vec<char> = Vec::new();
    let mut in_tag = false;
    let mut i: usize = 0;
    while i < s.len()
        invariant
            i <= s.len(),
            out@ + render_from(s@, i as int, in_tag) == render_spec(s@),
        decreases s.len() - i,
    {
        let c = s[i];
        let ghost before = out@;
        if c == '<' {
            in_tag = true;
            i = i + 1;
        } else if c == '>' {
            in_tag = false;
            i = i + 1;
        } else if in_tag {
            i = i + 1;
        } else if c == '&' {
            let j = parse_entity(&s, i + 1);
            if j < s.len() && s[j] == ';' {
                let name = slice_chars(&s, i + 1, j);
                let piece = decode_entity(&name);
                append_chars(&mut out, &piece);
                assert(out@ + render_from(s@, j + 1, false) =~= before + render_from(
                    s@,
                    i as int,
                    false,
                ));
                i = j + 1;
            } else {
                out.push('&');
                assert(out@ + render_from(s@, i + 1, false) =~= before + render_from(
                    s@,
                    i as int,
                    false,
                ));
                i = i + 1;
            }
        } else {
            out.push(c);
            assert(out@ + render_from(s@, i + 1, false) =~= before + render_from(
                s@,
                i as int,
                false,
            ));
            i = i + 1;
        }
    }
    string_of(&out)
}

proof fn lemma_plain_suffix(s: Seq<char>, i: int)
    requires
        0 <= i <= s.len(),
        forall|k: int| 0 <= k < s.len() ==> s[k] != '<' && s[k] != '>' && s[k] != '&',
    ensures
        render_from(s, i, false) == s.subrange(i, s.len() as int),
    decreases s.len() - i,
{
    if i < s.len() {
        lemma_plain_suffix(s, i + 1);
        assert(s.subrange(i, s.len() as int) =~= seq![s[i]] + s.subrange(i + 1, s.len() as int));
    } else {
        assert(s.subrange(i, s.len() as int) =~= Seq::<char>::empty());
    }
}

/// Text holding no `<`, `>` or `&` renders as itself.
pub proof fn lemma_plain_text_unchanged(s: Seq<char>)
    requires
        forall|k: int| 0 <= k < s.len() ==> s[k] != '<' && s[k] != '>' && s[k] != '&',
    ensures
        render_spec(s) == s,
{
    lemma_plain_suffix(s, 0);
    assert(s.subrange(0, s.len() as int) =~= s);
}

} // verus!
