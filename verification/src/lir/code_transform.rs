//! Pieces of text that the code generator's template writes for the low-level
//! description: doc comments, type paths and formatting hints.

use vstd::prelude::*;

use crate::dsl_hir::joined_lines;
use crate::lir::{Field, FieldConversionMethod};

verus! {

/// The line without its last character when that is a carriage return.
pub open spec fn strip_cr(line: Seq<char>) -> Seq<char> {
    if line.len() > 0 && line.last() == '\r' {
        line.drop_last()
    } else {
        line
    }
}

/// Reading the text from the left: the lines that a line feed has ended so far, and
/// the characters of the line that is still open.
pub open spec fn line_split(s: Seq<char>) -> (Seq<Seq<char>>, Seq<char>)
    decreases s.len(),
{
    if s.len() == 0 {
        (Seq::empty(), Seq::empty())
    } else {
        let (done, cur) = line_split(s.drop_last());
        if s.last() == '\n' {
            (done.push(strip_cr(cur)), Seq::empty())
        } else {
            (done, cur.push(s.last()))
        }
    }
}

/// The lines of a text as `str::lines` gives them: split at `\n` or `\r\n`, where the
/// last line ending may be left out.
pub open spec fn text_lines(s: Seq<char>) -> Seq<Seq<char>> {
    let (done, cur) = line_split(s);
    if cur.len() > 0 {
        done.push(cur)
    } else {
        done
    }
}

/// One line of a doc comment: `///`, a space unless the line starts with one, and the line.
pub open spec fn docstring_line(line: Seq<char>) -> Seq<char> {
    if line.len() > 0 && line[0] == ' ' {
        "///"@ + line
    } else {
        "/// "@ + line
    }
}

/// The doc comment of a description: each of its lines as a doc comment line, joined
/// by line breaks.
pub open spec fn docstring_text(description: Seq<char>) -> Seq<char> {
    joined_lines(text_lines(description).map_values(|l: Seq<char>| docstring_line(l)))
}

/// Whether the character has the Unicode property `White_Space`.
pub open spec fn white_space(c: char) -> bool {
    ||| '\u{9}' <= c <= '\u{d}'
    ||| c == ' '
    ||| c == '\u{85}'
    ||| c == '\u{a0}'
    ||| c == '\u{1680}'
    ||| '\u{2000}' <= c <= '\u{200a}'
    ||| c == '\u{2028}'
    ||| c == '\u{2029}'
    ||| c == '\u{202f}'
    ||| c == '\u{205f}'
    ||| c == '\u{3000}'
}

/// The number of white space characters at the start of the text.
pub open spec fn leading_space_len(s: Seq<char>) -> nat
    decreases s.len(),
{
    if s.len() > 0 && white_space(s[0]) {
        1 + leading_space_len(s.drop_first())
    } else {
        0
    }
}

/// The text without the white space at its start.
pub open spec fn trimmed_start(s: Seq<char>) -> Seq<char> {
    s.skip(leading_space_len(s) as int)
}

/// Whether the text starts with the prefix.
pub open spec fn has_prefix(s: Seq<char>, prefix: Seq<char>) -> bool {
    prefix.len() <= s.len() && s.take(prefix.len() as int) == prefix
}

/// Whether a type path is relative to the module of the generated code, so that the
/// code, which sits one module deeper, reaches it through `super::`.
pub open spec fn path_needs_super(type_path: Seq<char>) -> bool {
    &&& !has_prefix(trimmed_start(type_path), seq![':', ':'])
    &&& !has_prefix(trimmed_start(type_path), seq!['c', 'r', 'a', 't', 'e'])
}

/// The type that a conversion converts to, if it names one.
pub open spec fn conversion_target(m: FieldConversionMethod) -> Option<Seq<char>> {
    match m {
        FieldConversionMethod::Into(t) => Some(t@),
        FieldConversionMethod::UnsafeInto(t) => Some(t@),
        FieldConversionMethod::TryInto(t) => Some(t@),
        _ => None,
    }
}

/// The prefix that the generated code puts before the type that a conversion converts
/// to: `super::` for a path that is relative to the module of the generated code, and
/// nothing for an absolute path, a path from `crate` or a conversion without a type.
pub open spec fn super_prefix_text(m: FieldConversionMethod) -> Seq<char> {
    match conversion_target(m) {
        Some(t) => if path_needs_super(t) {
            "super::"@
        } else {
            ""@
        },
        None => ""@,
    }
}

/// The formatting hint of a field for `defmt`: its base type when it isn't converted,
/// `bool` for a boolean, and nothing otherwise.
pub open spec fn defmt_hint(field: Field) -> Seq<char> {
    match field.conversion_method {
        FieldConversionMethod::NoConversion => "="@ + field.base_type@,
        FieldConversionMethod::Bool => "=bool"@,
        _ => Seq::empty(),
    }
}

/// Whether the character has the Unicode property `White_Space`, as `char::is_whitespace`
/// decides it.
pub fn is_white_space(c: char) -> (res: bool)
    ensures
        res == white_space(c),
{
    ('\u{9}' <= c && c <= '\u{d}') || c == ' ' || c == '\u{85}' || c == '\u{a0}' || c == '\u{1680}'
        || ('\u{2000}' <= c && c <= '\u{200a}') || c == '\u{2028}' || c == '\u{2029}' || c
        == '\u{202f}' || c == '\u{205f}' || c == '\u{3000}'
}

/// The number of leading white space characters is the first position that holds
/// none, or the length.
pub proof fn lemma_leading_space_len(s: Seq<char>, k: int)
    requires
        0 <= k <= s.len(),
        forall|j: int| 0 <= j < k ==> white_space(#[trigger] s[j]),
        k == s.len() || !white_space(s[k]),
    ensures
        leading_space_len(s) == k,
    decreases k,
{
    if k > 0 {
        let rest = s.drop_first();
        assert forall|j: int| 0 <= j < k - 1 implies white_space(#[trigger] rest[j]) by {
            assert(rest[j] == s[j + 1]);
        }
        if k < s.len() {
            assert(rest[k - 1] == s[k]);
        }
        lemma_leading_space_len(rest, k - 1);
    }
}

/// Reading one more character: a line feed ends the open line, without a carriage
/// return at its end; any other character extends it.
proof fn lemma_line_split_step(d: Seq<char>, i: int)
    requires
        0 <= i < d.len(),
    ensures
        line_split(d.take(i + 1)) == (if d[i] == '\n' {
            (line_split(d.take(i)).0.push(strip_cr(line_split(d.take(i)).1)), Seq::<char>::empty())
        } else {
            (line_split(d.take(i)).0, line_split(d.take(i)).1.push(d[i]))
        }),
{
    let next = d.take(i + 1);
    assert(next.drop_last() =~= d.take(i));
    assert(next.last() == d[i]);
}

/// The lines joined by line breaks, after one more line: the new line alone, or a line
/// break and the new line after the others.
proof fn lemma_joined_push(done: Seq<Seq<char>>, line: Seq<char>)
    ensures
        joined_lines(done.push(line).map_values(|l: Seq<char>| docstring_line(l))) == if done.len()
            == 0 {
            docstring_line(line)
        } else {
            joined_lines(done.map_values(|l: Seq<char>| docstring_line(l))) + "\n"@
                + docstring_line(line)
        },
{
    let all = done.push(line).map_values(|l: Seq<char>| docstring_line(l));
    assert(all.drop_last() =~= done.map_values(|l: Seq<char>| docstring_line(l)));
    assert(all.last() == docstring_line(line));
}

/// Appends a doc comment line for the line, after a line break when lines came before.
fn push_doc_line(res: &mut String, line: &str, any: bool)
    ensures
        final(res)@ == if any {
            old(res)@ + "\n"@ + docstring_line(line@)
        } else {
            old(res)@ + docstring_line(line@)
        },
{
    if any {
        res.append("\n");
    }
    let n = line.unicode_len();
    if n > 0 && line.get_char(0) == ' ' {
        res.append("///");
    } else {
        res.append("/// ");
    }
    res.append(line);
    proof {
        if any {
            assert(final(res)@ =~= old(res)@ + "\n"@ + docstring_line(line@));
        } else {
            assert(final(res)@ =~= old(res)@ + docstring_line(line@));
        }
    }
}

/// The doc comment of a description: each of its lines as a line of `///` comment.
pub fn description_to_docstring(description: &str) -> (res: String)
    ensures
        res@ == docstring_text(description@),
{
    let ghost d = description@;
    let n = description.unicode_len();
    let mut res = String::new();
    let mut any = false;
    let mut start: usize = 0;
    let mut i: usize = 0;
    let ghost mut done: Seq<Seq<char>> = Seq::empty();
    proof {
        assert(d.take(0) =~= Seq::<char>::empty());
        assert(d.subrange(0, 0) =~= Seq::<char>::empty());
        assert(done.map_values(|l: Seq<char>| docstring_line(l)) =~= Seq::<Seq<char>>::empty());
    }
    while i < n
        invariant
            n == d.len(),
            d == description@,
            start <= i <= n,
            line_split(d.take(i as int)) == (done, d.subrange(start as int, i as int)),
            res@ == joined_lines(done.map_values(|l: Seq<char>| docstring_line(l))),
            any == (done.len() > 0),
        decreases n - i,
    {
        let c = description.get_char(i);
        proof {
            lemma_line_split_step(d, i as int);
        }
        if c == '\n' {
            let end = if i > start && description.get_char(i - 1) == '\r' {
                i - 1
            } else {
                i
            };
            let line = description.substring_char(start, end);
            proof {
                let cur = d.subrange(start as int, i as int);
                assert(line@ =~= strip_cr(cur));
                lemma_joined_push(done, line@);
            }
            push_doc_line(&mut res, line, any);
            proof {
                done = done.push(line@);
            }
            any = true;
            start = i + 1;
            proof {
                assert(d.subrange(start as int, start as int) =~= Seq::<char>::empty());
            }
        } else {
            proof {
                assert(d.subrange(start as int, i as int).push(c) =~= d.subrange(
                    start as int,
                    i + 1,
                ));
            }
        }
        i = i + 1;
    }
    proof {
        assert(d.take(n as int) =~= d);
    }
    if start < n {
        let line = description.substring_char(start, n);
        proof {
            lemma_joined_push(done, line@);
        }
        push_doc_line(&mut res, line, any);
    }
    res
}

/// The views of the texts.
pub open spec fn texts_view(v: Seq<String>) -> Seq<Seq<char>> {
    v.map_values(|s: String| s@)
}

/// The lines of a text, as `str::lines` gives them.
pub fn split_lines(text: &str) -> (res: Vec<String>)
    ensures
        texts_view(res@) == text_lines(text@),
{
    let ghost d = text@;
    let n = text.unicode_len();
    let mut res: Vec<String> = Vec::new();
    let mut start: usize = 0;
    let mut i: usize = 0;
    proof {
        assert(d.take(0) =~= Seq::<char>::empty());
        assert(d.subrange(0, 0) =~= Seq::<char>::empty());
        assert(texts_view(res@) =~= Seq::<Seq<char>>::empty());
    }
    while i < n
        invariant
            n == d.len(),
            d == text@,
            start <= i <= n,
            line_split(d.take(i as int)) == (texts_view(res@), d.subrange(start as int, i as int)),
        decreases n - i,
    {
        let c = text.get_char(i);
        proof {
            lemma_line_split_step(d, i as int);
        }
        if c == '\n' {
            let end = if i > start && text.get_char(i - 1) == '\r' {
                i - 1
            } else {
                i
            };
            let line = text.substring_char(start, end);
            proof {
                assert(line@ =~= strip_cr(d.subrange(start as int, i as int)));
            }
            let ghost before = res@;
            res.push(String::from_str(line));
            proof {
                assert(texts_view(res@) =~= texts_view(before).push(line@));
            }
            start = i + 1;
            proof {
                assert(d.subrange(start as int, start as int) =~= Seq::<char>::empty());
            }
        } else {
            proof {
                assert(d.subrange(start as int, i as int).push(c) =~= d.subrange(
                    start as int,
                    i + 1,
                ));
            }
        }
        i = i + 1;
    }
    proof {
        assert(d.take(n as int) =~= d);
    }
    if start < n {
        let line = text.substring_char(start, n);
        let ghost before = res@;
        res.push(String::from_str(line));
        proof {
            assert(texts_view(res@) =~= texts_view(before).push(line@));
        }
    }
    res
}

/// The prefix that the generated code puts before the type that a conversion converts
/// to: `super::` for a path that is relative to the module of the generated code, and
/// nothing for an absolute path, a path from `crate` or a conversion without a type.
pub fn get_super_prefix(conversion_method: &FieldConversionMethod) -> (res: &'static str)
    ensures
        res@ == super_prefix_text(*conversion_method),
{
    match conversion_method.conversion_type() {
        Some(ct) => {
            let s = ct.as_str();
            let n = s.unicode_len();
            let mut k: usize = 0;
            while k < n && is_white_space(s.get_char(k))
                invariant
                    n == s@.len(),
                    k <= n,
                    forall|j: int| 0 <= j < k ==> white_space(#[trigger] s@[j]),
                decreases n - k,
            {
                k = k + 1;
            }
            proof {
                lemma_leading_space_len(s@, k as int);
            }
            let ghost t = trimmed_start(s@);
            let absolute = n - k >= 2 && s.get_char(k) == ':' && s.get_char(k + 1) == ':';
            let from_crate = n - k >= 5 && s.get_char(k) == 'c' && s.get_char(k + 1) == 'r'
                && s.get_char(k + 2) == 'a' && s.get_char(k + 3) == 't' && s.get_char(k + 4)
                == 'e';
            proof {
                assert(t.len() == n - k);
                if n - k >= 2 {
                    assert(t[0] == s@[k as int] && t[1] == s@[k + 1]);
                    assert(absolute == (t.take(2) =~= seq![':', ':']));
                }
                if n - k >= 5 {
                    assert(t[0] == s@[k as int] && t[1] == s@[k + 1] && t[2] == s@[k + 2] && t[3]
                        == s@[k + 3] && t[4] == s@[k + 4]);
                    assert(from_crate == (t.take(5) =~= seq!['c', 'r', 'a', 't', 'e']));
                }
            }
            if !absolute && !from_crate {
                "super::"
            } else {
                ""
            }
        },
        None => "",
    }
}

/// The type of the field set that a command takes or gives: the field set in the
/// `field_sets` module, or the unit type when there is none.
pub fn get_command_fieldset_name(fieldset: &Option<String>) -> (res: String)
    ensures
        res@ == match fieldset {
            Some(fs) => "field_sets::"@ + fs@,
            None => "()"@,
        },
{
    match fieldset {
        Some(fs) => {
            let mut res = String::from_str("field_sets::");
            res.append(fs.as_str());
            res
        },
        None => String::from_str("()"),
    }
}

/// The `defmt` format text of a field: its name and a placeholder with its formatting
/// hint, followed by a separator.
pub fn get_defmt_fmt_string(field: &Field) -> (res: String)
    ensures
        res@ == field.name@ + ": {"@ + defmt_hint(*field) + "}, "@,
{
    let mut res = field.name.clone();
    res.append(": {");
    match &field.conversion_method {
        FieldConversionMethod::NoConversion => {
            res.append("=");
            res.append(field.base_type.as_str());
        },
        FieldConversionMethod::Bool => {
            res.append("=bool");
        },
        _ => {},
    }
    res.append("}, ");
    proof {
        assert(res@ =~= field.name@ + ": {"@ + defmt_hint(*field) + "}, "@);
    }
    res
}

} // verus!
