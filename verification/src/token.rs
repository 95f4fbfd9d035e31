//! Position-tagged lexical units: line splitting, header-line splitting
//! into key and value, and data-row splitting into cells.
//!
//! Lines are split at `\n`, a `\r` immediately before the `\n` being
//! dropped; a final line needs no line ending. Each token carries its
//! 1-based line number and the half-open span of UTF-8 byte offsets it
//! occupies within its line.

use vstd::prelude::*;

use crate::text::{
    byte_off, chars_range_to_vec, find2, skip_char, rskip_char, skip_ws, rskip_ws, spec_byte_off,
    spec_find2, spec_skip, spec_rskip, spec_trim_ws,
};

verus! {

/// A lexical token: its trimmed text, its column span within its line,
/// and its 1-based line number.
pub struct Token {
    pub value: Vec<char>,
    pub start: usize,
    pub end: usize,
    pub lineno: usize,
}

/// The mathematical image of a token.
pub struct TokenModel {
    pub value: Seq<char>,
    pub start: int,
    pub end: int,
    pub lineno: int,
}

/// The mathematical image of a token.
pub open spec fn token_view(t: &Token) -> TokenModel {
    TokenModel { value: t.value@, start: t.start as int, end: t.end as int, lineno: t.lineno as int }
}

/// One line of the input: its text without the line ending, and the
/// character offset of its first character in the whole input.
pub struct Line {
    pub start: usize,
    pub text: Vec<char>,
}

/// The mathematical image of a line.
pub open spec fn line_view(l: &Line) -> (int, Seq<char>) {
    (l.start as int, l.text@)
}

/// The images of a sequence of lines.
pub open spec fn line_views(ls: Seq<Line>) -> Seq<(int, Seq<char>)> {
    ls.map_values(|l: Line| (l.start as int, l.text@))
}

/// A line's content: the segment up to the line ending, a `\r` before
/// the `\n` dropped.
pub open spec fn spec_strip_cr(t: Seq<char>) -> Seq<char> {
    if t.len() > 0 && t.last() == '\r' {
        t.drop_last()
    } else {
        t
    }
}

/// The lines of `s[pos..]`, each with the character offset it starts at.
pub open spec fn spec_lines_from(s: Seq<char>, pos: int) -> Seq<(int, Seq<char>)>
    decreases s.len() - pos,
{
    if pos < 0 || pos >= s.len() {
        Seq::empty()
    } else {
        match spec_find2(s, pos, s.len() as int, '\n', '\n') {
            None => seq![(pos, s.subrange(pos, s.len() as int))],
            Some(i) => {
                let next = if pos <= i < s.len() {
                    i + 1
                } else {
                    pos + 1
                };
                seq![(pos, spec_strip_cr(s.subrange(pos, i)))] + spec_lines_from(s, next)
            },
        }
    }
}

/// Splits the whole input into lines.
pub fn split_lines(v: &[char]) -> (r: Vec<Line>)
    ensures
        line_views(r@) == spec_lines_from(v@, 0),
{
    let n = v.len();
    let mut r: Vec<Line> = Vec::new();
    let mut pos: usize = 0;
    while pos < n
        invariant
            pos <= n,
            n == v@.len(),
            line_views(r@) + spec_lines_from(v@, pos as int) == spec_lines_from(v@, 0),
        decreases n - pos,
    {
        let ghost before = line_views(r@);
        match find2(v, pos, n, '\n', '\n') {
            Some(i) => {
                let end = if i > pos && v[i - 1] == '\r' {
                    i - 1
                } else {
                    i
                };
                let text = chars_range_to_vec(v, pos, end);
                proof {
                    if end < i {
                        assert(v@.subrange(pos as int, i as int).last() == v@[i - 1]);
                        assert(v@.subrange(pos as int, i as int).drop_last() =~= v@.subrange(
                            pos as int,
                            end as int,
                        ));
                    } else if i > pos {
                        assert(v@.subrange(pos as int, i as int).last() == v@[i - 1]);
                    }
                    assert(text@ == spec_strip_cr(v@.subrange(pos as int, i as int)));
                }
                r.push(Line { start: pos, text });
                proof {
                    assert(line_views(r@) =~= before + seq![
                        (pos as int, spec_strip_cr(v@.subrange(pos as int, i as int))),
                    ]);
                    assert(line_views(r@) + spec_lines_from(v@, i + 1) =~= before + spec_lines_from(
                        v@,
                        pos as int,
                    ));
                }
                pos = i + 1;
            },
            None => {
                let text = chars_range_to_vec(v, pos, n);
                r.push(Line { start: pos, text });
                proof {
                    assert(line_views(r@) =~= before + seq![
                        (pos as int, v@.subrange(pos as int, n as int)),
                    ]);
                    assert(line_views(r@) + spec_lines_from(v@, n as int) =~= before
                        + spec_lines_from(v@, pos as int));
                }
                pos = n;
            },
        }
    }
    proof {
        assert(line_views(r@) =~= line_views(r@) + spec_lines_from(v@, pos as int));
    }
    r
}

/// The key and value tokens of a header line, split at the first `:` or
/// `=`; `None` when the line holds neither. A key or value region that
/// holds only spaces is kept raw, spanning the whole region; otherwise
/// its text is trimmed of whitespace, its span covering the region
/// between the first and last non-space characters, in byte offsets.
pub open spec fn spec_header_kv(line: Seq<char>, lineno: int) -> Option<(TokenModel, TokenModel)> {
    let n = line.len() as int;
    match spec_find2(line, 0, n, ':', '=') {
        None => None,
        Some(pos) => {
            let kst = spec_skip(line, 0, pos, ' ');
            let key = if kst == pos {
                TokenModel {
                    value: line.subrange(0, pos),
                    start: 0,
                    end: spec_byte_off(line, pos),
                    lineno,
                }
            } else {
                let ken = spec_rskip(line, kst, pos, ' ');
                TokenModel {
                    value: spec_trim_ws(line, 0, pos),
                    start: spec_byte_off(line, kst),
                    end: spec_byte_off(line, ken),
                    lineno,
                }
            };
            let vst = spec_skip(line, pos + 1, n, ' ');
            let value = if vst == n {
                TokenModel {
                    value: line.subrange(pos + 1, n),
                    start: spec_byte_off(line, pos + 1),
                    end: spec_byte_off(line, n),
                    lineno,
                }
            } else {
                let ven = spec_rskip(line, vst, n, ' ');
                TokenModel {
                    value: spec_trim_ws(line, pos + 1, n),
                    start: spec_byte_off(line, vst),
                    end: spec_byte_off(line, ven),
                    lineno,
                }
            };
            Some((key, value))
        },
    }
}

/// Splits a header line into its key and value tokens.
pub fn split_header_kv(line: &Line, lineno: usize) -> (r: Option<(Token, Token)>)
    ensures
        match r {
            Some((k, v)) => {
                let m = spec_header_kv(line.text@, lineno as int);
                m matches Some((mk, mv)) && token_view(&k) == mk && token_view(&v) == mv
            },
            None => spec_header_kv(line.text@, lineno as int) is None,
        },
{
    let t = line.text.as_slice();
    let n = t.len();
    let pos = match find2(t, 0, n, ':', '=') {
        Some(p) => p,
        None => {
            return None;
        },
    };
    let kst = skip_char(t, 0, pos, ' ');
    let key = if kst == pos {
        Token {
            value: chars_range_to_vec(t, 0, pos),
            start: 0,
            end: byte_off(t, pos),
            lineno,
        }
    } else {
        let ken = rskip_char(t, kst, pos, ' ');
        let ws = skip_ws(t, 0, pos);
        let we = rskip_ws(t, ws, pos);
        Token {
            value: chars_range_to_vec(t, ws, we),
            start: byte_off(t, kst),
            end: byte_off(t, ken),
            lineno,
        }
    };
    let vst = skip_char(t, pos + 1, n, ' ');
    let value = if vst == n {
        Token {
            value: chars_range_to_vec(t, pos + 1, n),
            start: byte_off(t, pos + 1),
            end: byte_off(t, n),
            lineno,
        }
    } else {
        let ven = rskip_char(t, vst, n, ' ');
        let ws = skip_ws(t, pos + 1, n);
        let we = rskip_ws(t, ws, n);
        Token {
            value: chars_range_to_vec(t, ws, we),
            start: byte_off(t, vst),
            end: byte_off(t, ven),
            lineno,
        }
    };
    Some((key, value))
}

/// The cell tokens of a data row from position `pos` on: each cell spans
/// from the current position to the space that ends it, in byte offsets,
/// its text trimmed of whitespace; a tail of spaces yields no further
/// cell.
pub open spec fn spec_cells_from(line: Seq<char>, lineno: int, pos: int) -> Seq<TokenModel>
    decreases line.len() - pos,
{
    let n = line.len() as int;
    if pos < 0 || pos >= n {
        Seq::empty()
    } else {
        let f = spec_skip(line, pos, n, ' ');
        if f == n {
            Seq::empty()
        } else {
            let e = match spec_find2(line, f, n, ' ', ' ') {
                None => n,
                Some(x) => x,
            };
            let next = if pos < e <= n {
                e
            } else {
                pos + 1
            };
            seq![
                TokenModel {
                    value: spec_trim_ws(line, pos, e),
                    start: spec_byte_off(line, pos),
                    end: spec_byte_off(line, e),
                    lineno,
                },
            ] + spec_cells_from(line, lineno, next)
        }
    }
}

/// The images of a sequence of tokens.
pub open spec fn token_views(ts: Seq<Token>) -> Seq<TokenModel> {
    ts.map_values(
        |t: Token| TokenModel {
            value: t.value@,
            start: t.start as int,
            end: t.end as int,
            lineno: t.lineno as int,
        },
    )
}

/// Splits a data row into its cell tokens.
pub fn split_cells(line: &Line, lineno: usize) -> (r: Vec<Token>)
    ensures
        token_views(r@) == spec_cells_from(line.text@, lineno as int, 0),
{
    let t = line.text.as_slice();
    let n = t.len();
    let mut r: Vec<Token> = Vec::new();
    let mut pos: usize = 0;
    while pos < n
        invariant
            pos <= n,
            n == t@.len(),
            t@ == line.text@,
            token_views(r@) + spec_cells_from(line.text@, lineno as int, pos as int)
                == spec_cells_from(line.text@, lineno as int, 0),
        decreases n - pos,
    {
        let ghost before = token_views(r@);
        let f = skip_char(t, pos, n, ' ');
        if f == n {
            proof {
                assert(token_views(r@) =~= token_views(r@) + spec_cells_from(
                    line.text@,
                    lineno as int,
                    pos as int,
                ));
            }
            return r;
        }
        let e = match find2(t, f, n, ' ', ' ') {
            None => n,
            Some(x) => x,
        };
        let st = skip_ws(t, pos, e);
        let en = rskip_ws(t, st, e);
        let tok = Token {
            value: chars_range_to_vec(t, st, en),
            start: byte_off(t, pos),
            end: byte_off(t, e),
            lineno,
        };
        proof {
            assert(token_view(&tok).value == spec_trim_ws(line.text@, pos as int, e as int));
        }
        r.push(tok);
        proof {
            assert(token_views(r@) =~= before + seq![
                TokenModel {
                    value: spec_trim_ws(line.text@, pos as int, e as int),
                    start: spec_byte_off(line.text@, pos as int),
                    end: spec_byte_off(line.text@, e as int),
                    lineno: lineno as int,
                },
            ]);
            assert(token_views(r@) + spec_cells_from(line.text@, lineno as int, e as int) =~= before
                + spec_cells_from(line.text@, lineno as int, pos as int));
        }
        pos = e;
    }
    proof {
        assert(token_views(r@) =~= token_views(r@) + spec_cells_from(
            line.text@,
            lineno as int,
            pos as int,
        ));
    }
    r
}

} // verus!
