//! Line tokenizer: MT940 text to `(tag, value)` pairs.
use vstd::prelude::*;
use crate::text::{
    chars_of, find_char, find_char_range, lemma_find_char, push_str_chars, split, split_range,
    string_of_range, trim_end_char, trim_end_char_range,
};

verus! {

/// One tag of the input and its value with continuation lines joined.
#[derive(Debug)]
pub struct TagLine {
    pub tag: String,
    pub value: String,
}

pub struct TagLineV {
    pub tag: Seq<char>,
    pub value: Seq<char>,
}

impl View for TagLine {
    type V = TagLineV;

    open spec fn view(&self) -> TagLineV {
        TagLineV { tag: self.tag@, value: self.value@ }
    }
}

/// The lines of `s` as `str::lines` yields them (split at `\n`, no empty
/// last line), each with its trailing carriage returns removed.
pub open spec fn input_lines(s: Seq<char>) -> Seq<Seq<char>> {
    let parts = split(s, '\n');
    let ls = if parts.last().len() == 0 {
        parts.drop_last()
    } else {
        parts
    };
    ls.map_values(|l: Seq<char>| trim_end_char(l, '\r'))
}

/// The tag `:61:`.
pub open spec fn tag_61() -> Seq<char> {
    seq![':', '6', '1', ':']
}

/// Tokenizer state: the finished pairs, and the tag (empty before the first
/// tag) and value being read.
pub struct TokState {
    pub out: Seq<TagLineV>,
    pub tag: Seq<char>,
    pub value: Seq<char>,
}

/// A line `:TAG:rest` opens a new tag (the text up to the second colon) with
/// `rest` as value; any other line continues the current value (after a
/// newline for `:61:`, with nothing in between otherwise); lines before the
/// first tag are ignored.
pub open spec fn tok_step(st: TokState, line: Seq<char>) -> TokState {
    if line.len() > 0 && line[0] == ':' && find_char(line.drop_first(), ':') is Some {
        let idx = find_char(line.drop_first(), ':')->0;
        TokState {
            out: if st.tag.len() > 0 {
                st.out.push(TagLineV { tag: st.tag, value: st.value })
            } else {
                st.out
            },
            tag: line.take(idx + 2),
            value: line.skip(idx + 2),
        }
    } else if st.tag.len() > 0 {
        TokState {
            out: st.out,
            tag: st.tag,
            value: st.value + (if st.tag == tag_61() {
                seq!['\n']
            } else {
                Seq::<char>::empty()
            }) + line,
        }
    } else {
        st
    }
}

/// `line` opens a tag: `:TAG:` at its start.
pub open spec fn opens_tag(line: Seq<char>) -> bool {
    line.len() > 0 && line[0] == ':' && find_char(line.drop_first(), ':') is Some
}

/// A line that opens no tag continues the current value: `:86:` lines are
/// joined with nothing in between (no space is added), `:61:` lines with a
/// line feed; the tag and the finished pairs stay as they were.
pub proof fn law_continuation_joins(st: TokState, line: Seq<char>)
    requires
        st.tag.len() > 0,
        !opens_tag(line),
    ensures
        tok_step(st, line).out == st.out,
        tok_step(st, line).tag == st.tag,
        tok_step(st, line).value == if st.tag == tag_61() {
            st.value + seq!['\n'] + line
        } else {
            st.value + line
        },
{
    assert(st.value + Seq::<char>::empty() =~= st.value);
}

/// A line `:TAG:rest` ends the current pair (when there is one) and opens
/// `:TAG:` with value `rest`.
pub proof fn law_tag_line_opens(st: TokState, line: Seq<char>)
    requires
        opens_tag(line),
    ensures
        tok_step(st, line).tag + tok_step(st, line).value == line,
        tok_step(st, line).tag[0] == ':' && tok_step(st, line).tag.last() == ':',
        tok_step(st, line).out == if st.tag.len() > 0 {
            st.out.push(TagLineV { tag: st.tag, value: st.value })
        } else {
            st.out
        },
{
    lemma_find_char(line.drop_first(), ':');
    let idx = find_char(line.drop_first(), ':')->0;
    assert(line.take(idx + 2) + line.skip(idx + 2) =~= line);
    assert(line.take(idx + 2).last() == line.drop_first()[idx]);
}

pub open spec fn tok_fold(lines: Seq<Seq<char>>, n: int) -> TokState
    decreases n,
{
    if n <= 0 {
        TokState { out: Seq::empty(), tag: Seq::empty(), value: Seq::empty() }
    } else {
        tok_step(tok_fold(lines, n - 1), lines[n - 1])
    }
}

/// The `(tag, value)` pairs of `s`, in order.
pub open spec fn tokenize(s: Seq<char>) -> Seq<TagLineV> {
    let lines = input_lines(s);
    let st = tok_fold(lines, lines.len() as int);
    if st.tag.len() > 0 {
        st.out.push(TagLineV { tag: st.tag, value: st.value })
    } else {
        st.out
    }
}

pub open spec fn tag_lines_v(v: Seq<TagLine>) -> Seq<TagLineV> {
    v.map_values(|t: TagLine| t@)
}

/// One line of input, `v[a..b]`, through `tok_step`.
fn tok_step_exec(
    v: &[char],
    a: usize,
    b: usize,
    out: &mut Vec<TagLine>,
    cur_tag: &mut String,
    cur_val: &mut String,
    has_tag: &mut bool,
    is_61: &mut bool,
)
    requires
        a <= b <= v@.len(),
        *old(has_tag) == (old(cur_tag)@.len() > 0),
        *old(is_61) == (old(cur_tag)@ == tag_61()),
    ensures
        tok_step(
            TokState { out: tag_lines_v(old(out)@), tag: old(cur_tag)@, value: old(cur_val)@ },
            v@.subrange(a as int, b as int),
        ) == (TokState {
            out: tag_lines_v(final(out)@),
            tag: final(cur_tag)@,
            value: final(cur_val)@,
        }),
        *final(has_tag) == (final(cur_tag)@.len() > 0),
        *final(is_61) == (final(cur_tag)@ == tag_61()),
{
    let ghost line = v@.subrange(a as int, b as int);
    let ghost st = TokState { out: tag_lines_v(out@), tag: cur_tag@, value: cur_val@ };
    if b > a && v[a] == ':' {
        proof {
            assert(line.drop_first() =~= v@.subrange(a + 1, b as int));
        }
        match find_char_range(v, a + 1, b, ':') {
            Some(ci) => {
                proof {
                    lemma_find_char(line.drop_first(), ':');
                    let idx = ci - (a + 1);
                    assert(line.take(idx + 2) =~= v@.subrange(a as int, ci + 1));
                    assert(line.skip(idx + 2) =~= v@.subrange(ci + 1, b as int));
                }
                if *has_tag {
                    let ghost before = out@;
                    let mut t = String::new();
                    let mut w = String::new();
                    std::mem::swap(&mut t, cur_tag);
                    std::mem::swap(&mut w, cur_val);
                    out.push(TagLine { tag: t, value: w });
                    proof {
                        assert(tag_lines_v(out@) =~= tag_lines_v(before).push(
                            TagLineV { tag: st.tag, value: st.value },
                        ));
                    }
                }
                *cur_tag = string_of_range(v, a, ci + 1);
                *cur_val = string_of_range(v, ci + 1, b);
                *has_tag = true;
                *is_61 = ci + 1 - a == 4 && v[a + 1] == '6' && v[a + 2] == '1';
                proof {
                    if ci + 1 - a == 4 {
                        assert(cur_tag@[0] == ':');
                        assert(cur_tag@[3] == ':');
                        if v@[a + 1] == '6' && v@[a + 2] == '1' {
                            assert(cur_tag@ =~= tag_61());
                        }
                    }
                    if cur_tag@ == tag_61() {
                        assert(cur_tag@[1] == v@[a + 1]);
                        assert(cur_tag@[2] == v@[a + 2]);
                    }
                }
                return;
            },
            None => {},
        }
    }
    if *has_tag {
        if *is_61 {
            cur_val.push('\n');
        }
        push_str_chars(cur_val, v, a, b);
        proof {
            assert(cur_val@ =~= st.value + (if st.tag == tag_61() {
                seq!['\n']
            } else {
                Seq::<char>::empty()
            }) + line);
        }
    }
}

/// Splits MT940 text into tags with their values.
pub fn tokenize_lines(input: &str) -> (r: Vec<TagLine>)
    ensures
        tag_lines_v(r@) == tokenize(input@),
{
    let v = chars_of(input);
    let ghost s = v@;
    assert(v@.subrange(0, v@.len() as int) =~= v@);
    let parts = split_range(v.as_slice(), 0, v.len(), '\n');
    let ghost ps = split(s, '\n');
    let (la, lb) = parts[parts.len() - 1];
    let nlines = if la == lb {
        parts.len() - 1
    } else {
        parts.len()
    };
    let ghost lines = input_lines(s);
    proof {
        let ls = if ps.last().len() == 0 {
            ps.drop_last()
        } else {
            ps
        };
        assert(ps.last() == v@.subrange(la as int, lb as int));
        assert(lines.len() == nlines);
        assert forall|k: int| 0 <= k < nlines implies lines[k] == trim_end_char(
            #[trigger] ps[k],
            '\r',
        ) by {
            assert(ls[k] == ps[k]);
        }
    }
    let mut out: Vec<TagLine> = Vec::new();
    let mut cur_tag = String::new();
    let mut cur_val = String::new();
    let mut has_tag = false;
    let mut is_61 = false;
    let mut k: usize = 0;
    proof {
        assert(tag_lines_v(out@) =~= Seq::<TagLineV>::empty());
        assert(cur_tag@.len() == 0 && tag_61().len() == 4);
    }
    while k < nlines
        invariant
            v@ == s,
            ps == split(s, '\n'),
            lines == input_lines(s),
            parts@.len() == ps.len(),
            nlines <= parts@.len(),
            nlines == lines.len(),
            forall|j: int| 0 <= j < nlines ==> lines[j] == trim_end_char(#[trigger] ps[j], '\r'),
            forall|j: int|
                0 <= j < parts@.len() ==> (#[trigger] parts@[j]).0 <= parts@[j].1 <= v@.len()
                    && v@.subrange(parts@[j].0 as int, parts@[j].1 as int) == ps[j],
            k <= nlines,
            tok_fold(lines, k as int) == (TokState {
                out: tag_lines_v(out@),
                tag: cur_tag@,
                value: cur_val@,
            }),
            has_tag == (cur_tag@.len() > 0),
            is_61 == (cur_tag@ == tag_61()),
        decreases nlines - k,
    {
        let (a, b0) = parts[k];
        let b = trim_end_char_range(v.as_slice(), a, b0, '\r');
        assert(v@.subrange(a as int, b as int) == lines[k as int]);
        tok_step_exec(
            v.as_slice(),
            a,
            b,
            &mut out,
            &mut cur_tag,
            &mut cur_val,
            &mut has_tag,
            &mut is_61,
        );
        k += 1;
    }
    if has_tag {
        let ghost before = out@;
        let ghost st = tok_fold(lines, nlines as int);
        out.push(TagLine { tag: cur_tag, value: cur_val });
        proof {
            assert(tag_lines_v(out@) =~= tag_lines_v(before).push(
                TagLineV { tag: st.tag, value: st.value },
            ));
        }
    }
    out
}

} // verus!
