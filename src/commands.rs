use vstd::prelude::*;
use crate::regex::parser::{digit, digits_end, error_at, is_digit, number, parse, pattern, skip_digits, Input, RegexError, Syntax};
use crate::regex::{compiles, is_match_of, Pattern};
use crate::render::{render, rendered};
use crate::text::{chars_of, string_of};

verus! {

/// What selects the lines that a command applies to.
#[derive(Debug)]
pub enum Address {
    /// The line with this 1-based number.
    LineNumber(u64),
    /// The lines whose pattern space the pattern matches.
    Context(Pattern),
}

pub enum AddressModel {
    LineNumber(u64),
    Context(Seq<char>),
}

impl Address {
    pub open spec fn view(&self) -> AddressModel {
        match self {
            Address::LineNumber(n) => AddressModel::LineNumber(*n),
            Address::Context(p) => AddressModel::Context(p@),
        }
    }
}

/// What a command does.
#[derive(Debug)]
pub enum Function {
    /// `=`: print the line number.
    PrintLineNumber,
    /// `d`
    Delete,
    /// `D`
    DeleteFirstLine,
    /// `g`: copy the hold space into the pattern space.
    CopyHoldToPattern,
    /// `G`: append a newline and the hold space to the pattern space.
    AppendHoldToPattern,
    /// `h`: copy the pattern space into the hold space.
    CopyPatternToHold,
    /// `H`: append a newline and the pattern space to the hold space.
    AppendPatternToHold,
    /// `i`: print this text.
    Insert(String),
    /// `p`
    Print,
    /// `s`: replace the first match of the pattern by the replacement template.
    Substitute(Pattern, String),
    /// `x`: swap the pattern space and the hold space.
    Exchange,
}

pub enum FunctionModel {
    PrintLineNumber,
    Delete,
    DeleteFirstLine,
    CopyHoldToPattern,
    AppendHoldToPattern,
    CopyPatternToHold,
    AppendPatternToHold,
    Insert(Seq<char>),
    Print,
    Substitute(Seq<char>, Seq<char>),
    Exchange,
}

impl Function {
    pub open spec fn view(&self) -> FunctionModel {
        match self {
            Function::PrintLineNumber => FunctionModel::PrintLineNumber,
            Function::Delete => FunctionModel::Delete,
            Function::DeleteFirstLine => FunctionModel::DeleteFirstLine,
            Function::CopyHoldToPattern => FunctionModel::CopyHoldToPattern,
            Function::AppendHoldToPattern => FunctionModel::AppendHoldToPattern,
            Function::CopyPatternToHold => FunctionModel::CopyPatternToHold,
            Function::AppendPatternToHold => FunctionModel::AppendPatternToHold,
            Function::Insert(t) => FunctionModel::Insert(t@),
            Function::Print => FunctionModel::Print,
            Function::Substitute(p, r) => FunctionModel::Substitute(p@, r@),
            Function::Exchange => FunctionModel::Exchange,
        }
    }
}

/// One script command: an optional address or address range, and a function.
#[derive(Debug)]
pub struct Command {
    pub start: Option<Address>,
    /// Present only together with `start`.
    pub end: Option<Address>,
    pub function: Function,
}

pub struct CommandModel {
    pub start: Option<AddressModel>,
    pub end: Option<AddressModel>,
    pub function: FunctionModel,
}

pub open spec fn address_view(a: Option<Address>) -> Option<AddressModel> {
    match a {
        Some(a) => Some(a.view()),
        None => None,
    }
}

impl Command {
    pub open spec fn view(&self) -> CommandModel {
        CommandModel { start: address_view(self.start), end: address_view(self.end), function: self.function.view() }
    }

    /// An end address only with a start address.
    pub open spec fn wf(&self) -> bool {
        self.end is Some ==> self.start is Some
    }
}

/// A rejected command. Positions count characters of the command text.
#[derive(Clone, Copy, Debug, PartialEq, Eq, Structural)]
pub enum ScriptError {
    /// An embedded pattern is not well formed.
    Regex(RegexError),
    /// The engine rejected the pattern that starts here.
    Compile { at: usize },
    /// A line number that does not fit a `u64`.
    LineNumberTooLarge { at: usize },
    /// A delimiter was expected here.
    MissingDelimiter { at: usize },
    /// An address was expected here.
    MissingAddress { at: usize },
    /// No function, or one that does not exist, starts here.
    UnknownFunction { at: usize },
}

/// Whether address `a` selects line number `line` with pattern space `text`.
pub open spec fn address_matches(a: AddressModel, text: Seq<char>, line: nat) -> bool {
    match a {
        AddressModel::LineNumber(n) => n == line,
        AddressModel::Context(p) => is_match_of(p, text),
    }
}

/// Tests a single address against the pattern space `text` of line `line_num`.
pub fn match_address(addr: &Address, text: &str, line_num: u64) -> (r: bool)
    ensures
        r == address_matches(addr.view(), text@, line_num as nat),
{
    match addr {
        Address::LineNumber(l) => *l == line_num,
        Address::Context(p) => p.is_match(text),
    }
}

/// A line number matches exactly the line with that number.
pub proof fn lemma_line_number_exact(n: u64, text: Seq<char>, line: nat)
    ensures
        address_matches(AddressModel::LineNumber(n), text, line) <==> line == n,
{
}

/// The replacement text `s[i..]` in the engine's template syntax: each `$` doubled, and
/// each backslash followed by digits turned into a `${digits}` capture reference.
pub open spec fn translated(s: Seq<char>, i: int) -> Seq<char>
    decreases s.len() - i,
{
    if i < 0 || i >= s.len() {
        Seq::empty()
    } else if s[i] == '$' {
        seq!['$', '$'] + translated(s, i + 1)
    } else if s[i] == '\\' && i + 1 < s.len() && is_digit(s[i + 1]) {
        let e = digits_end(s, i + 1);
        if i < e <= s.len() {
            seq!['$', '{'] + s.subrange(i + 1, e) + seq!['}'] + translated(s, e)
        } else {
            Seq::empty()
        }
    } else {
        seq![s[i]] + translated(s, i + 1)
    }
}

/// A replacement text of dialect `syn` in the engine's template syntax. Teal
/// replacements are written in that syntax already.
pub open spec fn cleaned(s: Seq<char>, syn: Syntax) -> Seq<char> {
    if syn == Syntax::Teal {
        s
    } else {
        translated(s, 0)
    }
}

/// Translates a replacement text into the engine's template syntax.
pub fn clean_replacement(syntax: &Syntax, s: String) -> (r: String)
    ensures
        r@ == cleaned(s@, *syntax),
{
    if *syntax == Syntax::Teal {
        return s;
    }
    let t = chars_of(s.as_str());
    let mut out: Vec<char> = Vec::new();
    let mut i: usize = 0;
    while i < t.len()
        invariant
            i <= t@.len(),
            t@ == s@,
            out@ + translated(t@, i as int) == translated(t@, 0),
        decreases t@.len() - i,
    {
        let ghost before = out@;
        let c = t[i];
        if c == '$' {
            out.push('$');
            out.push('$');
            assert(out@ + translated(t@, i + 1) =~= before + translated(t@, i as int));
            i = i + 1;
        } else if c == '\\' && i + 1 < t.len() && digit(t[i + 1]) {
            let e = skip_digits(&t, i + 1);
            out.push('$');
            out.push('{');
            let mut j: usize = i + 1;
            while j < e
                invariant
                    i + 1 <= j <= e <= t@.len(),
                    out@ == before + seq!['$', '{'] + t@.subrange(i + 1, j as int),
                decreases e - j,
            {
                out.push(t[j]);
                j = j + 1;
                assert(out@ =~= before + seq!['$', '{'] + t@.subrange(i + 1, j as int));
            }
            out.push('}');
            assert(out@ + translated(t@, e as int) =~= before + translated(t@, i as int));
            i = e;
        } else {
            out.push(c);
            assert(out@ + translated(t@, i + 1) =~= before + translated(t@, i as int));
            i = i + 1;
        }
    }
    assert(out@ =~= translated(t@, 0));
    string_of(&out)
}

/// Teal replacement texts pass through unchanged.
pub proof fn lemma_teal_replacement_unchanged(s: Seq<char>)
    ensures
        cleaned(s, Syntax::Teal) == s,
{
}

/// Where the replacement text that starts at `i` ends: at the next `d` that no
/// backslash escapes, or at the end of `s`.
pub open spec fn replacement_end(s: Seq<char>, i: int, d: char) -> int
    decreases s.len() - i,
{
    if i < 0 || i >= s.len() || s[i] == d {
        i
    } else if s[i] == '\\' && i + 1 < s.len() {
        replacement_end(s, i + 2, d)
    } else {
        replacement_end(s, i + 1, d)
    }
}

/// The pattern text at `b`, ended by the delimiter `d`: its rendering and the index
/// after the delimiter.
pub open spec fn delimited(s: Seq<char>, b: int, d: char, syn: Syntax) -> Result<(Seq<char>, int), ScriptError> {
    match pattern(s, b, d, syn) {
        Err((e, k)) => Err(ScriptError::Regex(error_at(s, e, k))),
        Ok((a, q, _)) => if 0 <= q < s.len() && s[q] == d {
            if compiles(rendered(a)) {
                Ok((rendered(a), q + 1))
            } else {
                Err(ScriptError::Compile { at: b as usize })
            }
        } else {
            Err(ScriptError::MissingDelimiter { at: q as usize })
        },
    }
}

pub open spec fn context(r: Result<(Seq<char>, int), ScriptError>) -> Result<(AddressModel, int), ScriptError> {
    match r {
        Ok((t, q)) => Ok((AddressModel::Context(t), q)),
        Err(e) => Err(e),
    }
}

/// The address at `p`, if one starts there: a line number, `/pattern/`, or `\cpatternc`.
pub open spec fn address(s: Seq<char>, p: int, syn: Syntax) -> Option<Result<(AddressModel, int), ScriptError>> {
    if 0 <= p < s.len() && is_digit(s[p]) {
        let e = digits_end(s, p);
        let n = number(s, p, e);
        Some(if n > u64::MAX { Err(ScriptError::LineNumberTooLarge { at: p as usize }) } else { Ok((AddressModel::LineNumber(n as u64), e)) })
    } else if 0 <= p < s.len() && s[p] == '/' {
        Some(context(delimited(s, p + 1, '/', syn)))
    } else if 0 <= p < s.len() && s[p] == '\\' {
        if p + 1 < s.len() {
            Some(context(delimited(s, p + 2, s[p + 1], syn)))
        } else {
            Some(Err(ScriptError::MissingDelimiter { at: (p + 1) as usize }))
        }
    } else {
        None
    }
}

/// The function at `p` and the index after it.
pub open spec fn function(s: Seq<char>, p: int, syn: Syntax) -> Result<(FunctionModel, int), ScriptError> {
    if !(0 <= p < s.len()) {
        Err(ScriptError::UnknownFunction { at: p as usize })
    } else {
        let c = s[p];
        if c == '=' {
            Ok((FunctionModel::PrintLineNumber, p + 1))
        } else if c == 'd' {
            Ok((FunctionModel::Delete, p + 1))
        } else if c == 'D' {
            Ok((FunctionModel::DeleteFirstLine, p + 1))
        } else if c == 'g' {
            Ok((FunctionModel::CopyHoldToPattern, p + 1))
        } else if c == 'G' {
            Ok((FunctionModel::AppendHoldToPattern, p + 1))
        } else if c == 'h' {
            Ok((FunctionModel::CopyPatternToHold, p + 1))
        } else if c == 'H' {
            Ok((FunctionModel::AppendPatternToHold, p + 1))
        } else if c == 'i' {
            Ok((FunctionModel::Insert(s.subrange(p + 1, s.len() as int)), s.len() as int))
        } else if c == 'p' {
            Ok((FunctionModel::Print, p + 1))
        } else if c == 'x' {
            Ok((FunctionModel::Exchange, p + 1))
        } else if c == 's' {
            if p + 1 < s.len() {
                let d = s[p + 1];
                match delimited(s, p + 2, d, syn) {
                    Err(e) => Err(e),
                    Ok((t, q)) => {
                        let e = replacement_end(s, q, d);
                        if e < s.len() {
                            Ok((FunctionModel::Substitute(t, cleaned(s.subrange(q, e), syn)), e + 1))
                        } else {
                            Err(ScriptError::MissingDelimiter { at: e as usize })
                        }
                    },
                }
            } else {
                Err(ScriptError::MissingDelimiter { at: (p + 1) as usize })
            }
        } else {
            Err(ScriptError::UnknownFunction { at: p as usize })
        }
    }
}

pub open spec fn with_function(
    s: Seq<char>,
    p: int,
    syn: Syntax,
    start: Option<AddressModel>,
    end: Option<AddressModel>,
) -> Result<(CommandModel, int), ScriptError> {
    match function(s, p, syn) {
        Ok((f, q)) => Ok((CommandModel { start, end, function: f }, q)),
        Err(e) => Err(e),
    }
}

/// The command at `p`: an optional address, or two joined by `,`, then a function.
pub open spec fn command(s: Seq<char>, p: int, syn: Syntax) -> Result<(CommandModel, int), ScriptError> {
    match address(s, p, syn) {
        None => with_function(s, p, syn, None, None),
        Some(Err(e)) => Err(e),
        Some(Ok((a1, q1))) => if 0 <= q1 < s.len() && s[q1] == ',' {
            match address(s, q1 + 1, syn) {
                None => Err(ScriptError::MissingAddress { at: (q1 + 1) as usize }),
                Some(Err(e)) => Err(e),
                Some(Ok((a2, q2))) => with_function(s, q2, syn, Some(a1), Some(a2)),
            }
        } else {
            with_function(s, q1, syn, Some(a1), None)
        },
    }
}

/// `t` is the cursor `s` moved on to `q`.
pub open spec fn moved_to(t: Input, s: Input, q: int) -> bool {
    &&& t.wf()
    &&& t.text@ == s.text@
    &&& t.pos == q
    &&& t.extra.syntax == s.extra.syntax
}

fn parse_delimited(s: Input, d: char) -> (r: Result<(Input, Pattern), ScriptError>)
    requires
        s.wf(),
    ensures
        match delimited(s.text@, s.pos as int, d, s.extra.syntax) {
            Ok((t, q)) => r matches Ok((u, p)) && p@ == t && moved_to(u, s, q),
            Err(e) => r matches Err(e2) && e2 == e,
        },
{
    let b = s.pos;
    match parse(d, s) {
        Err(e) => Err(ScriptError::Regex(e)),
        Ok((t, ast)) => {
            if t.pos < t.text.len() && t.text[t.pos] == d {
                match Pattern::compile(render(&ast)) {
                    Ok(p) => {
                        let q = t.pos + 1;
                        Ok((Input { text: t.text, pos: q, extra: t.extra }, p))
                    },
                    Err(_) => Err(ScriptError::Compile { at: b }),
                }
            } else {
                Err(ScriptError::MissingDelimiter { at: t.pos })
            }
        },
    }
}

/// Scans the digits at `p`: where they end, and their value if it fits a `u64`.
fn scan_line_number(s: &Vec<char>, p: usize) -> (r: (usize, Option<u64>))
    requires
        p <= s@.len(),
    ensures
        r.0 as int == digits_end(s@, p as int),
        p <= r.0 <= s@.len(),
        match r.1 {
            Some(v) => v as nat == number(s@, p as int, r.0 as int),
            None => number(s@, p as int, r.0 as int) > u64::MAX,
        },
{
    let mut i: usize = p;
    let mut value: u128 = 0;
    let mut over = false;
    while i < s.len() && digit(s[i])
        invariant
            p <= i <= s@.len(),
            digits_end(s@, i as int) == digits_end(s@, p as int),
            over ==> number(s@, p as int, i as int) > u64::MAX,
            !over ==> value as nat == number(s@, p as int, i as int) && value <= u64::MAX,
        decreases s@.len() - i,
    {
        let dv: u128 = (s[i] as u32 - '0' as u32) as u128;
        assert(number(s@, p as int, i + 1) == 10 * number(s@, p as int, i as int) + crate::regex::parser::digit_value(s@[i as int]));
        if !over {
            let next = value * 10 + dv;
            if next > u64::MAX as u128 {
                over = true;
            } else {
                value = next;
            }
        }
        i = i + 1;
    }
    if over {
        (i, None)
    } else {
        (i, Some(value as u64))
    }
}

/// Parses the address at the cursor.
pub fn parse_address(s: Input) -> (r: Result<(Input, Address), ScriptError>)
    requires
        s.wf(),
    ensures
        match address(s.text@, s.pos as int, s.extra.syntax) {
            None => r matches Err(e) && e == ScriptError::MissingAddress { at: s.pos },
            Some(Ok((a, q))) => r matches Ok((t, addr)) && addr.view() == a && moved_to(t, s, q),
            Some(Err(e)) => r matches Err(e2) && e2 == e,
        },
{
    let p = s.pos;
    let len = s.text.len();
    if p < len && digit(s.text[p]) {
        let (e, n) = scan_line_number(&s.text, p);
        match n {
            Some(n) => Ok((Input { text: s.text, pos: e, extra: s.extra }, Address::LineNumber(n))),
            None => Err(ScriptError::LineNumberTooLarge { at: p }),
        }
    } else if p < len && s.text[p] == '/' {
        let t = Input { text: s.text, pos: p + 1, extra: s.extra };
        match parse_delimited(t, '/') {
            Ok((u, pat)) => Ok((u, Address::Context(pat))),
            Err(e) => Err(e),
        }
    } else if p < len && s.text[p] == '\\' {
        if p + 1 < len {
            let d = s.text[p + 1];
            let t = Input { text: s.text, pos: p + 2, extra: s.extra };
            match parse_delimited(t, d) {
                Ok((u, pat)) => Ok((u, Address::Context(pat))),
                Err(e) => Err(e),
            }
        } else {
            Err(ScriptError::MissingDelimiter { at: p + 1 })
        }
    } else {
        Err(ScriptError::MissingAddress { at: p })
    }
}

fn address_starts(s: &Input) -> (r: bool)
    ensures
        r == address(s.text@, s.pos as int, s.extra.syntax) is Some,
{
    let p = s.pos;
    p < s.text.len() && (digit(s.text[p]) || s.text[p] == '/' || s.text[p] == '\\')
}

/// Parses the function at the cursor.
pub fn parse_function(s: Input) -> (r: Result<(Input, Function), ScriptError>)
    requires
        s.wf(),
    ensures
        match function(s.text@, s.pos as int, s.extra.syntax) {
            Ok((f, q)) => r matches Ok((t, fun)) && fun.view() == f && moved_to(t, s, q),
            Err(e) => r matches Err(e2) && e2 == e,
        },
{
    let p = s.pos;
    let len = s.text.len();
    if p >= len {
        return Err(ScriptError::UnknownFunction { at: p });
    }
    let c = s.text[p];
    let simple = if c == '=' {
        Some(Function::PrintLineNumber)
    } else if c == 'd' {
        Some(Function::Delete)
    } else if c == 'D' {
        Some(Function::DeleteFirstLine)
    } else if c == 'g' {
        Some(Function::CopyHoldToPattern)
    } else if c == 'G' {
        Some(Function::AppendHoldToPattern)
    } else if c == 'h' {
        Some(Function::CopyPatternToHold)
    } else if c == 'H' {
        Some(Function::AppendPatternToHold)
    } else if c == 'p' {
        Some(Function::Print)
    } else if c == 'x' {
        Some(Function::Exchange)
    } else {
        None
    };
    if let Some(f) = simple {
        return Ok((Input { text: s.text, pos: p + 1, extra: s.extra }, f));
    }
    if c == 'i' {
        let text = string_of(&slice_of(&s.text, p + 1, len));
        return Ok((Input { text: s.text, pos: len, extra: s.extra }, Function::Insert(text)));
    }
    if c != 's' {
        return Err(ScriptError::UnknownFunction { at: p });
    }
    if p + 1 >= len {
        return Err(ScriptError::MissingDelimiter { at: p + 1 });
    }
    let d = s.text[p + 1];
    let syntax = s.extra.syntax;
    let t = Input { text: s.text, pos: p + 2, extra: s.extra };
    let (u, pat) = match parse_delimited(t, d) {
        Ok(x) => x,
        Err(e) => return Err(e),
    };
    let q = u.pos;
    let mut e: usize = q;
    while e < u.text.len() && u.text[e] != d
        invariant
            q <= e <= u.text@.len(),
            replacement_end(u.text@, e as int, d) == replacement_end(u.text@, q as int, d),
        decreases u.text@.len() - e,
    {
        if u.text[e] == '\\' && u.text.len() - e > 1 {
            e = e + 2;
        } else {
            e = e + 1;
        }
    }
    if e >= u.text.len() {
        return Err(ScriptError::MissingDelimiter { at: e });
    }
    let raw = string_of(&slice_of(&u.text, q, e));
    let replacement = clean_replacement(&syntax, raw);
    Ok((Input { text: u.text, pos: e + 1, extra: u.extra }, Function::Substitute(pat, replacement)))
}

/// The characters `s[from..to]`.
fn slice_of(s: &Vec<char>, from: usize, to: usize) -> (r: Vec<char>)
    requires
        from <= to <= s@.len(),
    ensures
        r@ == s@.subrange(from as int, to as int),
{
    let mut r: Vec<char> = Vec::new();
    let mut i: usize = from;
    while i < to
        invariant
            from <= i <= to <= s@.len(),
            r@ == s@.subrange(from as int, i as int),
        decreases to - i,
    {
        r.push(s[i]);
        i = i + 1;
        assert(r@ =~= s@.subrange(from as int, i as int));
    }
    r
}

/// Parses one command at the cursor.
pub fn parse_command(s: Input) -> (r: Result<(Input, Command), ScriptError>)
    requires
        s.wf(),
    ensures
        match command(s.text@, s.pos as int, s.extra.syntax) {
            Ok((c, q)) => r matches Ok((t, cmd)) && cmd.view() == c && cmd.wf() && moved_to(t, s, q),
            Err(e) => r matches Err(e2) && e2 == e,
        },
{
    if !address_starts(&s) {
        return match parse_function(s) {
            Ok((t, f)) => Ok((t, Command { start: None, end: None, function: f })),
            Err(e) => Err(e),
        };
    }
    let (t, a1) = match parse_address(s) {
        Ok(x) => x,
        Err(e) => return Err(e),
    };
    if t.pos < t.text.len() && t.text[t.pos] == ',' {
        let q1 = t.pos;
        let u = Input { text: t.text, pos: q1 + 1, extra: t.extra };
        if !address_starts(&u) {
            return Err(ScriptError::MissingAddress { at: q1 + 1 });
        }
        let (v, a2) = match parse_address(u) {
            Ok(x) => x,
            Err(e) => return Err(e),
        };
        match parse_function(v) {
            Ok((w, f)) => Ok((w, Command { start: Some(a1), end: Some(a2), function: f })),
            Err(e) => Err(e),
        }
    } else {
        match parse_function(t) {
            Ok((w, f)) => Ok((w, Command { start: Some(a1), end: None, function: f })),
            Err(e) => Err(e),
        }
    }
}

/// Parses one command at the cursor; what follows it is ignored.
pub fn parse_command_finish(s: Input) -> (r: Result<Command, ScriptError>)
    requires
        s.wf(),
    ensures
        match command(s.text@, s.pos as int, s.extra.syntax) {
            Ok((c, _)) => r matches Ok(cmd) && cmd.view() == c && cmd.wf(),
            Err(e) => r == Err::<Command, ScriptError>(e),
        },
{
    match parse_command(s) {
        Ok((_, cmd)) => Ok(cmd),
        Err(e) => Err(e),
    }
}

} // verus!
