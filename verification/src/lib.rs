//! Date and time formatting with locale support.
//!
//! A pattern string made of Unicode-style field tokens (`yyyy-MM-dd`, `GG`,
//! `hh:mm a`) is compiled into literal and token parts and rendered against
//! any calendar value that exposes the [`types::DateTimeLike`] capability,
//! with era names and ordinal suffixes supplied by a [`locale::Locale`].
//!
//! Characters wrapped between two single quote characters (`'`) are escaped,
//! and two single quotes in a row, inside or outside a quoted sequence,
//! stand for one real single quote.

use vstd::prelude::*;

pub mod formatters;
pub mod light_formatters;
pub mod locale;
pub mod locales;
pub mod types;
pub mod utils;

use formatters::FormatterKind;
use locale::Locale;
use locales::Locales;
use types::DateTimeLike;
use utils::push_char;

verus! {

/// The error a format call reports instead of producing partial output.
#[derive(Clone, Copy, PartialEq, Eq, Structural, Debug)]
pub enum FormatError {
    /// The pattern holds an unescaped ASCII letter with no registered field
    /// formatter; `ch` is that letter and `position` its character index in
    /// the pattern.
    UnsupportedToken { ch: char, position: usize },
    /// A year value too large for the formatter's integer width.
    NumericOverflow,
}

/// One compiled piece of a pattern, as a mathematical value: a field token
/// keeping its raw text, or a literal carrying the exact text to emit.
/// `pos` is the character index in the pattern where the piece began.
pub struct Part {
    pub is_token: bool,
    pub value: Seq<char>,
    pub pos: nat,
}

/// One compiled piece of a pattern: a field token keeping its raw run of
/// letters (its length encodes the width or style), or a literal carrying the
/// exact, already unescaped text to emit.
pub struct FormatPart {
    pub is_token: bool,
    pub value: String,
    pub pos: usize,
}

impl View for FormatPart {
    type V = Part;

    open spec fn view(&self) -> Part {
        Part { is_token: self.is_token, value: self.value@, pos: self.pos as nat }
    }
}

/// Whether the character is an ASCII letter; only these are reserved as
/// field tokens.
pub open spec fn spec_is_ascii_letter(c: char) -> bool {
    ('a' <= c && c <= 'z') || ('A' <= c && c <= 'Z')
}

fn is_ascii_letter(c: char) -> (r: bool)
    ensures
        r == spec_is_ascii_letter(c),
{
    ('a' <= c && c <= 'z') || ('A' <= c && c <= 'Z')
}

/// Whether the character can form a repeated-letter token run: an ASCII
/// letter, a decimal digit, or an underscore.
pub open spec fn spec_is_word_char(c: char) -> bool {
    spec_is_ascii_letter(c) || ('0' <= c && c <= '9') || c == '_'
}

fn is_word_char(c: char) -> (r: bool)
    ensures
        r == spec_is_word_char(c),
{
    is_ascii_letter(c) || ('0' <= c && c <= '9') || c == '_'
}

/// Whether the letter may take the `o` ordinal modifier, forming a
/// two-character token such as `yo`.
pub open spec fn spec_is_ordinal_letter(c: char) -> bool {
    c == 'y' || c == 'Y' || c == 'Q' || c == 'q' || c == 'M' || c == 'L' || c == 'w' || c == 'I'
        || c == 'd' || c == 'D' || c == 'e' || c == 'c' || c == 'i' || c == 'h' || c == 'H' || c
        == 'K' || c == 'k' || c == 'm' || c == 's'
}

fn is_ordinal_letter(c: char) -> (r: bool)
    ensures
        r == spec_is_ordinal_letter(c),
{
    match c {
        'y' | 'Y' | 'Q' | 'q' | 'M' | 'L' | 'w' | 'I' | 'd' | 'D' | 'e' | 'c' | 'i' | 'h' | 'H'
            | 'K' | 'k' | 'm' | 's' => true,
        _ => false,
    }
}

/// Scans a quoted span from just after its opening quote at `i - 1`: returns
/// the unescaped content (doubled quotes collapse to one) and the index just
/// after the span, which is just after the closing quote, or the end of the
/// text when no closing quote exists.
pub open spec fn spec_quote_scan(s: Seq<char>, i: nat) -> (Seq<char>, nat)
    decreases s.len() - i,
{
    if i >= s.len() {
        (Seq::empty(), i)
    } else if s[i as int] == '\'' {
        if i + 1 < s.len() && s[i as int + 1] == '\'' {
            let rest = spec_quote_scan(s, i + 2);
            (seq!['\''] + rest.0, rest.1)
        } else {
            (Seq::empty(), i + 1)
        }
    } else {
        let rest = spec_quote_scan(s, i + 1);
        (seq![s[i as int]] + rest.0, rest.1)
    }
}

proof fn lemma_quote_scan_bounds(s: Seq<char>, i: nat)
    requires
        i <= s.len(),
    ensures
        i <= spec_quote_scan(s, i).1 <= s.len(),
    decreases s.len() - i,
{
    if i < s.len() {
        if s[i as int] == '\'' {
            if i + 1 < s.len() && s[i as int + 1] == '\'' {
                lemma_quote_scan_bounds(s, i + 2);
            }
        } else {
            lemma_quote_scan_bounds(s, i + 1);
        }
    }
}

/// The first index at or after `i` where the run of the character `c` ends.
pub open spec fn spec_run_end(s: Seq<char>, i: nat, c: char) -> nat
    decreases s.len() - i,
{
    if i < s.len() && s[i as int] == c {
        spec_run_end(s, i + 1, c)
    } else {
        i
    }
}

proof fn lemma_run_end_bounds(s: Seq<char>, i: nat, c: char)
    requires
        i <= s.len(),
    ensures
        i <= spec_run_end(s, i, c) <= s.len(),
    decreases s.len() - i,
{
    if i < s.len() && s[i as int] == c {
        lemma_run_end_bounds(s, i + 1, c);
    }
}

/// The unescaped content of a quoted span: the surrounding quotes are
/// stripped and doubled quotes inside collapse to one; text that does not
/// open with a quote is kept as it is.
pub open spec fn spec_clean_quoted(v: Seq<char>) -> Seq<char> {
    if v.len() == 0 || v[0] != '\'' {
        v
    } else {
        spec_quote_scan(v, 1).0
    }
}

/// The compiled parts of the pattern text from index `i` on. Matching
/// priority at each position: an ordinal-modified token (an allowed letter
/// followed by `o`); a maximal run of one repeated word character; a doubled
/// quote, one literal quote; a quoted span, unescaped, extending to the end
/// when unterminated; else one literal character.
pub open spec fn spec_tokenize_from(s: Seq<char>, i: nat) -> Seq<Part>
    decreases s.len() - i,
    via spec_tokenize_from_decreases
{
    if i >= s.len() {
        Seq::empty()
    } else {
        let c = s[i as int];
        if spec_is_ordinal_letter(c) && i + 1 < s.len() && s[i as int + 1] == 'o' {
            seq![
                Part { is_token: true, value: s.subrange(i as int, i as int + 2), pos: i },
            ] + spec_tokenize_from(s, i + 2)
        } else if spec_is_word_char(c) {
            let j = spec_run_end(s, i + 1, c);
            seq![
                Part { is_token: true, value: s.subrange(i as int, j as int), pos: i },
            ] + spec_tokenize_from(s, j)
        } else if c == '\'' && i + 1 < s.len() && s[i as int + 1] == '\'' {
            seq![Part { is_token: false, value: seq!['\''], pos: i }] + spec_tokenize_from(
                s,
                i + 2,
            )
        } else if c == '\'' {
            let j = spec_quote_scan(s, i + 1).1;
            seq![
                Part {
                    is_token: false,
                    value: spec_clean_quoted(s.subrange(i as int, j as int)),
                    pos: i,
                },
            ] + spec_tokenize_from(s, j)
        } else {
            seq![Part { is_token: false, value: seq![c], pos: i }] + spec_tokenize_from(s, i + 1)
        }
    }
}

#[via_fn]
proof fn spec_tokenize_from_decreases(s: Seq<char>, i: nat) {
    if i < s.len() {
        lemma_run_end_bounds(s, i + 1, s[i as int]);
        lemma_quote_scan_bounds(s, i + 1);
    }
}

/// Every token part keeps at least one character of raw text.
pub open spec fn parts_wf(parts: Seq<Part>) -> bool {
    forall|k: int|
        0 <= k < parts.len() ==> (#[trigger] parts[k]).is_token ==> parts[k].value.len() >= 1
}

proof fn lemma_parts_wf_cons(h: Part, rest: Seq<Part>)
    requires
        h.is_token ==> h.value.len() >= 1,
        parts_wf(rest),
    ensures
        parts_wf(seq![h] + rest),
{
    let all = seq![h] + rest;
    assert forall|k: int| 0 <= k < all.len() && (#[trigger] all[k]).is_token implies all[k].value.len()
        >= 1 by {
        if k == 0 {
            assert(all[0] == h);
        } else {
            assert(all[k] == rest[k - 1]);
        }
    }
}

/// Every token part a pattern compiles to keeps at least one character of
/// raw text.
pub proof fn lemma_tokenize_wf(s: Seq<char>, i: nat)
    requires
        i <= s.len(),
    ensures
        parts_wf(spec_tokenize_from(s, i)),
    decreases s.len() - i,
{
    if i < s.len() {
        let c = s[i as int];
        if spec_is_ordinal_letter(c) && i + 1 < s.len() && s[i as int + 1] == 'o' {
            lemma_tokenize_wf(s, i + 2);
            lemma_parts_wf_cons(
                Part { is_token: true, value: s.subrange(i as int, i as int + 2), pos: i },
                spec_tokenize_from(s, i + 2),
            );
        } else if spec_is_word_char(c) {
            let j = spec_run_end(s, i + 1, c);
            lemma_run_end_bounds(s, i + 1, c);
            lemma_tokenize_wf(s, j);
            lemma_parts_wf_cons(
                Part { is_token: true, value: s.subrange(i as int, j as int), pos: i },
                spec_tokenize_from(s, j),
            );
        } else if c == '\'' && i + 1 < s.len() && s[i as int + 1] == '\'' {
            lemma_tokenize_wf(s, i + 2);
            lemma_parts_wf_cons(
                Part { is_token: false, value: seq!['\''], pos: i },
                spec_tokenize_from(s, i + 2),
            );
        } else if c == '\'' {
            let j = spec_quote_scan(s, i + 1).1;
            lemma_quote_scan_bounds(s, i + 1);
            lemma_tokenize_wf(s, j);
            lemma_parts_wf_cons(
                Part {
                    is_token: false,
                    value: spec_clean_quoted(s.subrange(i as int, j as int)),
                    pos: i,
                },
                spec_tokenize_from(s, j),
            );
        } else {
            lemma_tokenize_wf(s, i + 1);
            lemma_parts_wf_cons(
                Part { is_token: false, value: seq![c], pos: i },
                spec_tokenize_from(s, i + 1),
            );
        }
    }
}

/// Strips the quotes from a quoted span and collapses doubled quotes to one;
/// text that does not open with a quote is returned unchanged.
pub fn clean_escaped_string(value: &str) -> (r: String)
    ensures
        r@ == spec_clean_quoted(value@),
{
    let n = value.unicode_len();
    if n == 0 || value.get_char(0) != '\'' {
        return String::from_str(value);
    }
    let mut r = String::new();
    let mut k: usize = 1;
    while k < n
        invariant
            1 <= k <= n,
            n == value@.len(),
            value@[0] == '\'',
            spec_quote_scan(value@, 1).0 =~= r@ + spec_quote_scan(value@, k as nat).0,
        decreases n - k,
    {
        let c = value.get_char(k);
        if c == '\'' {
            if k + 1 < n && value.get_char(k + 1) == '\'' {
                push_char(&mut r, '\'');
                k = k + 2;
            } else {
                proof {
                    assert(spec_quote_scan(value@, k as nat).0 =~= Seq::<char>::empty());
                    assert(r@ + Seq::<char>::empty() =~= r@);
                }
                return r;
            }
        } else {
            push_char(&mut r, c);
            k = k + 1;
        }
        proof {
            assert(spec_quote_scan(value@, 1).0 =~= r@ + spec_quote_scan(value@, k as nat).0);
        }
    }
    proof {
        assert(spec_quote_scan(value@, k as nat).0 =~= Seq::<char>::empty());
        assert(r@ + Seq::<char>::empty() =~= r@);
    }
    r
}

/// Finds the index just after the quoted span whose opening quote sits at
/// `start - 1`.
fn scan_quote_end(pattern: &str, start: usize) -> (j: usize)
    requires
        start <= pattern@.len(),
    ensures
        j as nat == spec_quote_scan(pattern@, start as nat).1,
        start <= j <= pattern@.len(),
{
    let n = pattern.unicode_len();
    let mut k: usize = start;
    while k < n
        invariant
            start <= k <= n,
            n == pattern@.len(),
            spec_quote_scan(pattern@, start as nat).1 == spec_quote_scan(pattern@, k as nat).1,
        decreases n - k,
    {
        let c = pattern.get_char(k);
        if c == '\'' {
            if k + 1 < n && pattern.get_char(k + 1) == '\'' {
                k = k + 2;
            } else {
                return k + 1;
            }
        } else {
            k = k + 1;
        }
    }
    k
}

/// Compiles a pattern into its ordered literal and token parts.
pub fn tokenize(pattern: &str) -> (parts: Vec<FormatPart>)
    ensures
        parts@.map_values(|p: FormatPart| p@) == spec_tokenize_from(pattern@, 0),
{
    let n = pattern.unicode_len();
    let mut parts: Vec<FormatPart> = Vec::new();
    let mut i: usize = 0;
    while i < n
        invariant
            i <= n,
            n == pattern@.len(),
            spec_tokenize_from(pattern@, 0) =~= parts@.map_values(|p: FormatPart| p@)
                + spec_tokenize_from(pattern@, i as nat),
        decreases n - i,
    {
        let ghost prev = parts@.map_values(|p: FormatPart| p@);
        let ghost gi = i as nat;
        let c = pattern.get_char(i);
        if is_ordinal_letter(c) && i + 1 < n && pattern.get_char(i + 1) == 'o' {
            let raw = pattern.substring_char(i, i + 2);
            parts.push(FormatPart { is_token: true, value: String::from_str(raw), pos: i });
            i = i + 2;
        } else if is_word_char(c) {
            let mut j = i + 1;
            while j < n && pattern.get_char(j) == c
                invariant
                    i + 1 <= j <= n,
                    n == pattern@.len(),
                    spec_run_end(pattern@, (i + 1) as nat, c) == spec_run_end(
                        pattern@,
                        j as nat,
                        c,
                    ),
                decreases n - j,
            {
                j = j + 1;
            }
            proof {
                assert(spec_run_end(pattern@, j as nat, c) == j as nat);
            }
            let raw = pattern.substring_char(i, j);
            parts.push(FormatPart { is_token: true, value: String::from_str(raw), pos: i });
            i = j;
        } else if c == '\'' && i + 1 < n && pattern.get_char(i + 1) == '\'' {
            let mut v = String::new();
            push_char(&mut v, '\'');
            proof {
                assert(v@ =~= seq!['\'']);
            }
            parts.push(FormatPart { is_token: false, value: v, pos: i });
            i = i + 2;
        } else if c == '\'' {
            let j = scan_quote_end(pattern, i + 1);
            let raw = pattern.substring_char(i, j);
            let value = clean_escaped_string(raw);
            parts.push(FormatPart { is_token: false, value, pos: i });
            i = j;
        } else {
            let mut v = String::new();
            push_char(&mut v, c);
            proof {
                assert(v@ =~= seq![c]);
            }
            parts.push(FormatPart { is_token: false, value: v, pos: i });
            i = i + 1;
        }
        proof {
            assert(parts@.map_values(|p: FormatPart| p@) =~= prev + seq![parts@.last()@]);
            assert(spec_tokenize_from(pattern@, gi) =~= seq![parts@.last()@]
                + spec_tokenize_from(pattern@, i as nat));
            assert(spec_tokenize_from(pattern@, 0) =~= parts@.map_values(|p: FormatPart| p@)
                + spec_tokenize_from(pattern@, i as nat));
        }
    }
    parts
}

/// Rewrites composite long localized date/time tokens (`P` and `p` runs)
/// before the main tokenizer runs. Long localized tokens are reserved: no
/// locale-declared composite template is wired up yet, so the scan leaves the
/// pattern unchanged. This is the extension point where locale-driven
/// expansion would substitute a sub-pattern for each run.
pub fn preprocess_long_tokens(pattern: &str) -> (r: String)
    ensures
        r@ == pattern@,
{
    let n = pattern.unicode_len();
    let mut r = String::new();
    let mut i: usize = 0;
    while i < n
        invariant
            i <= n,
            n == pattern@.len(),
            r@ =~= pattern@.subrange(0, i as int),
        decreases n - i,
    {
        push_char(&mut r, pattern.get_char(i));
        i = i + 1;
        proof {
            assert(r@ =~= pattern@.subrange(0, i as int));
        }
    }
    proof {
        assert(pattern@.subrange(0, n as int) =~= pattern@);
    }
    r
}

/// The concatenated text of a part sequence, or the first error one of its
/// parts raises: formatting is all-or-nothing.
pub open spec fn spec_render_parts<D: DateTimeLike, L: Locale>(
    dt: &D,
    parts: Seq<Part>,
    locale: &L,
) -> Result<Seq<char>, FormatError>
    decreases parts.len(),
{
    if parts.len() == 0 {
        Ok(Seq::empty())
    } else {
        match formatters::spec_render_part(dt, parts[0], locale) {
            Err(e) => Err(e),
            Ok(head) => match spec_render_parts(dt, parts.drop_first(), locale) {
                Err(e) => Err(e),
                Ok(tail) => Ok(head + tail),
            },
        }
    }
}

/// The formatted text for a datetime, pattern and locale: the pattern's
/// compiled parts rendered in order and concatenated, or the first error a
/// part raises.
pub open spec fn spec_format<D: DateTimeLike, L: Locale>(
    dt: &D,
    pattern: Seq<char>,
    locale: &L,
) -> Result<Seq<char>, FormatError> {
    spec_render_parts(dt, spec_tokenize_from(pattern, 0), locale)
}

/// Returns the formatted date string in the given format; the result may vary
/// by locale. Fails, returning no partial output, when the pattern holds an
/// unescaped ASCII letter with no registered formatter, or when a year value
/// does not fit the formatter's integer width; [`spec_format`] gives the
/// exact result for every input.
///
/// The characters wrapped between two single quote characters (`'`) are
/// escaped; two single quotes in a row, inside or outside a quoted sequence,
/// represent a real single quote.
#[verifier::loop_isolation(false)]
pub fn datetime_format<D: DateTimeLike, L: Locale>(
    datetime: D,
    format_str: &str,
    locale: Locales<L>,
) -> (r: Result<String, FormatError>)
    ensures
        (match (r, spec_format(&datetime, format_str@, &locale)) {
            (Ok(s), Ok(m)) => s@ == m,
            (Err(e), Err(me)) => e == me,
            _ => false,
        }),
{
    let locale = locale.to_locale();
    let long_processed = preprocess_long_tokens(format_str);
    let parts = tokenize(long_processed.as_str());
    let ghost gparts = spec_tokenize_from(format_str@, 0);
    proof {
        lemma_tokenize_wf(format_str@, 0);
    }
    let mut out = String::new();
    let mut idx: usize = 0;
    proof {
        assert(gparts.skip(0) =~= gparts);
        match spec_render_parts(&datetime, gparts, &locale) {
            Ok(m) => {
                assert(Seq::<char>::empty() + m =~= m);
            },
            Err(e) => {},
        }
    }
    while idx < parts.len()
        invariant
            idx <= parts.len(),
            parts@.map_values(|p: FormatPart| p@) == gparts,
            parts_wf(gparts),
            (match spec_render_parts(&datetime, gparts.skip(idx as int), &locale) {
                Ok(tail) => spec_render_parts(&datetime, gparts, &locale) == Ok::<
                    Seq<char>,
                    FormatError,
                >(out@ + tail),
                Err(e) => spec_render_parts(&datetime, gparts, &locale) == Err::<
                    Seq<char>,
                    FormatError,
                >(e),
            }),
        decreases parts.len() - idx,
    {
        let ghost rest = gparts.skip(idx as int);
        let ghost out_old = out@;
        proof {
            assert(gparts[idx as int] == parts@.map_values(|p: FormatPart| p@)[idx as int]);
            assert(rest[0] == gparts[idx as int]);
            assert(rest.drop_first() =~= gparts.skip(idx as int + 1));
        }
        let part = &parts[idx];
        if !part.is_token {
            out.append(part.value.as_str());
        } else {
            let token = part.value.as_str();
            let c = token.get_char(0);
            match formatters::get_formatter(c) {
                Some(kind) => {
                    let piece: String = match kind {
                        FormatterKind::Era => formatters::era_formatter(&datetime, token, &locale),
                        FormatterKind::Year => {
                            match formatters::year_formatter(&datetime, token, &locale) {
                                Ok(s) => s,
                                Err(e) => {
                                    return Err(e);
                                },
                            }
                        },
                        FormatterKind::Month => light_formatters::M(&datetime, token),
                        FormatterKind::DayOfMonth => light_formatters::d(&datetime, token),
                        FormatterKind::DayPeriod => light_formatters::a(&datetime, token),
                        FormatterKind::Hour12 => light_formatters::h(&datetime, token),
                        FormatterKind::Hour24 => light_formatters::H(&datetime, token),
                        FormatterKind::Minute => light_formatters::m(&datetime, token),
                        FormatterKind::Second => light_formatters::s(&datetime, token),
                        FormatterKind::SecondFraction => light_formatters::S(&datetime, token),
                    };
                    out.append(piece.as_str());
                },
                None => {
                    if is_ascii_letter(c) {
                        return Err(FormatError::UnsupportedToken { ch: c, position: part.pos });
                    } else {
                        out.append(part.value.as_str());
                    }
                },
            }
        }
        idx = idx + 1;
        proof {
            assert(gparts.skip(idx as int) =~= rest.drop_first());
            match formatters::spec_render_part(&datetime, rest[0], &locale) {
                Ok(head) => {
                    assert(out@ == out_old + head);
                    match spec_render_parts(&datetime, rest.drop_first(), &locale) {
                        Ok(t2) => {
                            assert((out_old + head) + t2 =~= out_old + (head + t2));
                        },
                        Err(e) => {},
                    }
                },
                Err(e) => {
                    assert(false);
                },
            }
        }
    }
    proof {
        assert(gparts.skip(parts@.len() as int) =~= Seq::<Part>::empty());
        assert(out@ + Seq::<char>::empty() =~= out@);
    }
    Ok(out)
}

/// For the zero-padded numeric field tokens, the rendered text spans exactly
/// as many characters as the token whenever the unpadded value's digit count
/// does not exceed the token length. Month tokens pad to two characters and
/// fraction tokens cap at six digits, so the law holds for them up to those
/// lengths.
pub proof fn lemma_zero_padded_token_width<D: DateTimeLike, L: Locale>(
    dt: &D,
    token: Seq<char>,
    pos: nat,
    locale: &L,
)
    requires
        token.len() >= 1,
        forall|k: int| 0 <= k < token.len() ==> #[trigger] token[k] == token[0],
        token[0] == 'y' || token[0] == 'M' || token[0] == 'd' || token[0] == 'h' || token[0] == 'H'
            || token[0] == 'm' || token[0] == 's' || token[0] == 'S',
        token[0] == 'y' ==> light_formatters::spec_converted_year(dt.spec_full_year() as int)
            <= i32::MAX as int,
        token[0] == 'M' ==> token.len() <= 2,
        token[0] == 'S' ==> token.len() <= 6,
        utils::spec_digits(light_formatters::spec_padded_field_value(dt, token) as nat).len()
            <= token.len(),
    ensures
        (match formatters::spec_render_part(
            dt,
            Part { is_token: true, value: token, pos },
            locale,
        ) {
            Ok(s) => s.len() == token.len(),
            Err(_) => false,
        }),
{
    let c = token[0];
    let v = light_formatters::spec_padded_field_value(dt, token);
    if c == 'S' {
        let eff = if token.len() < 6 {
            token.len()
        } else {
            6nat
        };
        light_formatters::lemma_pow10_pos((6 - eff) as nat);
    }
    assert(v >= 0);
    utils::lemma_pad_width(v, token.len());
    utils::lemma_pad_width(v, 2);
    if c == 'M' && token.len() == 1 {
        utils::lemma_digits_nonempty(v as nat);
    }
}

/// Whether a part renders to fixed text, independent of the datetime and the
/// locale: every literal does, and so does a token run that does not begin
/// with an ASCII letter, which passes through unchanged.
pub open spec fn spec_part_renders_statically(part: Part) -> bool {
    !part.is_token || !spec_is_ascii_letter(part.value[0])
}

proof fn lemma_render_parts_static<D1: DateTimeLike, D2: DateTimeLike, L1: Locale, L2: Locale>(
    dt1: &D1,
    dt2: &D2,
    parts: Seq<Part>,
    l1: &L1,
    l2: &L2,
)
    requires
        forall|k: int|
            0 <= k < parts.len() ==> spec_part_renders_statically(#[trigger] parts[k]),
    ensures
        spec_render_parts(dt1, parts, l1) is Ok,
        spec_render_parts(dt1, parts, l1) == spec_render_parts(dt2, parts, l2),
    decreases parts.len(),
{
    if parts.len() > 0 {
        assert(spec_part_renders_statically(parts[0]));
        assert forall|k: int| 0 <= k < parts.drop_first().len() implies spec_part_renders_statically(
            #[trigger] parts.drop_first()[k],
        ) by {
            assert(parts.drop_first()[k] == parts[k + 1]);
        }
        lemma_render_parts_static(dt1, dt2, parts.drop_first(), l1, l2);
    }
}

/// A pattern whose compiled parts hold no field token - only literals and
/// pass-through runs - formats successfully to the same text for every
/// datetime and every locale.
pub proof fn lemma_tokenless_pattern_is_static<
    D1: DateTimeLike,
    D2: DateTimeLike,
    L1: Locale,
    L2: Locale,
>(dt1: &D1, dt2: &D2, pattern: Seq<char>, l1: &L1, l2: &L2)
    requires
        forall|k: int|
            0 <= k < spec_tokenize_from(pattern, 0).len() ==> spec_part_renders_statically(
                #[trigger] spec_tokenize_from(pattern, 0)[k],
            ),
    ensures
        spec_format(dt1, pattern, l1) is Ok,
        spec_format(dt1, pattern, l1) == spec_format(dt2, pattern, l2),
{
    lemma_render_parts_static(dt1, dt2, spec_tokenize_from(pattern, 0), l1, l2);
}

proof fn lemma_punct_render<D: DateTimeLike, L: Locale>(
    dt: &D,
    pattern: Seq<char>,
    locale: &L,
    i: nat,
)
    requires
        i <= pattern.len(),
        forall|k: int|
            i <= k < pattern.len() ==> !spec_is_word_char(#[trigger] pattern[k]) && pattern[k]
                != '\'',
    ensures
        spec_render_parts(dt, spec_tokenize_from(pattern, i), locale) == Ok::<
            Seq<char>,
            FormatError,
        >(pattern.skip(i as int)),
    decreases pattern.len() - i,
{
    if i >= pattern.len() {
        assert(pattern.skip(i as int) =~= Seq::<char>::empty());
    } else {
        let c = pattern[i as int];
        lemma_punct_render(dt, pattern, locale, i + 1);
        let head = Part { is_token: false, value: seq![c], pos: i };
        let parts = spec_tokenize_from(pattern, i);
        assert(parts =~= seq![head] + spec_tokenize_from(pattern, i + 1));
        assert(parts[0] == head);
        assert(parts.drop_first() =~= spec_tokenize_from(pattern, i + 1));
        assert(seq![c] + pattern.skip(i as int + 1) =~= pattern.skip(i as int));
    }
}

/// A pattern of non-letter, non-quote characters - punctuation, whitespace,
/// digits - passes through the formatter verbatim, for every datetime and
/// locale.
pub proof fn lemma_punctuation_roundtrip<D: DateTimeLike, L: Locale>(
    dt: &D,
    pattern: Seq<char>,
    locale: &L,
)
    requires
        forall|k: int|
            0 <= k < pattern.len() ==> !spec_is_word_char(#[trigger] pattern[k]) && pattern[k]
                != '\'',
    ensures
        spec_format(dt, pattern, locale) == Ok::<Seq<char>, FormatError>(pattern),
{
    lemma_punct_render(dt, pattern, locale, 0);
    assert(pattern.skip(0) =~= pattern);
}

proof fn lemma_render_parts_first_err<D: DateTimeLike, L: Locale>(
    dt: &D,
    parts: Seq<Part>,
    locale: &L,
    k: int,
)
    requires
        0 <= k < parts.len(),
        formatters::spec_render_part(dt, parts[k], locale) is Err,
        forall|j: int|
            0 <= j < k ==> formatters::spec_render_part(dt, #[trigger] parts[j], locale) is Ok,
    ensures
        spec_render_parts(dt, parts, locale) == formatters::spec_render_part(
            dt,
            parts[k],
            locale,
        ),
    decreases k,
{
    if k > 0 {
        assert forall|j: int| 0 <= j < k - 1 implies formatters::spec_render_part(
            dt,
            #[trigger] parts.drop_first()[j],
            locale,
        ) is Ok by {
            assert(parts.drop_first()[j] == parts[j + 1]);
        }
        assert(parts.drop_first()[k - 1] == parts[k]);
        lemma_render_parts_first_err(dt, parts.drop_first(), locale, k - 1);
        assert(formatters::spec_render_part(dt, parts[0], locale) is Ok);
    }
}

/// A pattern whose compiled parts hold an unescaped, unregistered ASCII
/// letter - with every part before it rendering successfully - formats to
/// the error naming that letter and its position in the pattern, and no
/// partial text.
pub proof fn lemma_unsupported_letter_is_reported<D: DateTimeLike, L: Locale>(
    dt: &D,
    pattern: Seq<char>,
    locale: &L,
    k: int,
)
    requires
        0 <= k < spec_tokenize_from(pattern, 0).len(),
        spec_tokenize_from(pattern, 0)[k].is_token,
        spec_tokenize_from(pattern, 0)[k].value.len() >= 1,
        spec_is_ascii_letter(spec_tokenize_from(pattern, 0)[k].value[0]),
        formatters::spec_get_formatter(spec_tokenize_from(pattern, 0)[k].value[0]) is None,
        forall|j: int|
            0 <= j < k ==> formatters::spec_render_part(
                dt,
                #[trigger] spec_tokenize_from(pattern, 0)[j],
                locale,
            ) is Ok,
    ensures
        spec_format(dt, pattern, locale) == Err::<Seq<char>, FormatError>(
            FormatError::UnsupportedToken {
                ch: spec_tokenize_from(pattern, 0)[k].value[0],
                position: spec_tokenize_from(pattern, 0)[k].pos as usize,
            },
        ),
{
    lemma_render_parts_first_err(dt, spec_tokenize_from(pattern, 0), locale, k);
}

} // verus!
