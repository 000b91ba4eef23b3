//! Character set conversions: Unicode to and from the Lincoln Writer
//! six-bit character codes.
//!
//! A Lincoln Writer code is 6 bits.  Printable codes map to a base
//! character that depends on the current case; other codes switch
//! case, script (normal, superscript, subscript) or colour, and a
//! few have no mapping at all.  Colour shifting carries no visual
//! representation here, and overstruck characters are not supported.

use vstd::prelude::*;

verus! {

/// A character for which no Unicode subscript form is known.
#[derive(Debug, Clone, Copy, PartialEq, Eq, Structural)]
pub struct NoSubscriptKnown(pub char);

/// A character for which no Unicode superscript form is known.
#[derive(Debug, Clone, Copy, PartialEq, Eq, Structural)]
pub struct NoSuperscriptKnown(pub char);

/// The Unicode subscript form of `ch`, if one is known.
pub open spec fn spec_subscript_char(ch: char) -> Option<char> {
    match ch {
        '0' => Some('\u{2080}'),
        '1' => Some('\u{2081}'),
        '2' => Some('\u{2082}'),
        '3' => Some('\u{2083}'),
        '4' => Some('\u{2084}'),
        '5' => Some('\u{2085}'),
        '6' => Some('\u{2086}'),
        '7' => Some('\u{2087}'),
        '8' => Some('\u{2088}'),
        '9' => Some('\u{2089}'),
        '-' => Some('\u{208B}'),
        '.' => Some('.'),  // there appears to be no subscript version
        _ => None,
    }
}

/// The Unicode subscript form of `ch`, or a failure naming `ch`.
pub fn subscript_char(ch: char) -> (r: Result<char, NoSubscriptKnown>)
    ensures
        r == (match spec_subscript_char(ch) {
            Some(c) => Ok::<char, NoSubscriptKnown>(c),
            None => Err::<char, NoSubscriptKnown>(NoSubscriptKnown(ch)),
        }),
{
    match ch {
        '0' => Ok('\u{2080}'),
        '1' => Ok('\u{2081}'),
        '2' => Ok('\u{2082}'),
        '3' => Ok('\u{2083}'),
        '4' => Ok('\u{2084}'),
        '5' => Ok('\u{2085}'),
        '6' => Ok('\u{2086}'),
        '7' => Ok('\u{2087}'),
        '8' => Ok('\u{2088}'),
        '9' => Ok('\u{2089}'),
        '-' => Ok('\u{208B}'),
        '.' => Ok('.'),
        _ => Err(NoSubscriptKnown(ch)),
    }
}

/// The Unicode superscript form of `ch`, if one is known.  There is
/// no superscript form of 'Y' or 'Z'.
pub open spec fn spec_superscript_char(ch: char) -> Option<char> {
    match ch {
        '0' => Some('\u{2070}'),
        '1' => Some('\u{00B9}'),
        '2' => Some('\u{00B2}'),
        '3' => Some('\u{00B3}'),
        '4' => Some('\u{2074}'),
        '5' => Some('\u{2075}'),
        '6' => Some('\u{2076}'),
        '7' => Some('\u{2077}'),
        '8' => Some('\u{2078}'),
        '9' => Some('\u{2079}'),
        'A' => Some('\u{1D2C}'),
        'B' => Some('\u{1D2E}'),
        'C' => Some('\u{A7F2}'),
        'D' => Some('\u{1D30}'),
        'E' => Some('\u{1D31}'),
        'F' => Some('\u{A7F3}'),
        'G' => Some('\u{1D33}'),
        'H' => Some('\u{1D34}'),
        'I' => Some('\u{1D35}'),
        'J' => Some('\u{1D36}'),
        'K' => Some('\u{1D37}'),
        'L' => Some('\u{1D38}'),
        'M' => Some('\u{1D39}'),
        'N' => Some('\u{1D3A}'),
        'O' => Some('\u{1D3C}'),
        'P' => Some('\u{1D3E}'),
        'Q' => Some('\u{A7F4}'),
        'R' => Some('\u{1D3F}'),
        'S' => Some('\u{209B}'),
        'T' => Some('\u{1D40}'),
        'U' => Some('\u{1D41}'),
        'V' => Some('\u{2C7D}'),
        'W' => Some('\u{1D42}'),
        'X' => Some('\u{2093}'),
        _ => None,
    }
}

/// The Unicode superscript form of `ch`, or a failure naming `ch`.
pub fn superscript_char(ch: char) -> (r: Result<char, NoSuperscriptKnown>)
    ensures
        r == (match spec_superscript_char(ch) {
            Some(c) => Ok::<char, NoSuperscriptKnown>(c),
            None => Err::<char, NoSuperscriptKnown>(NoSuperscriptKnown(ch)),
        }),
{
    match ch {
        '0' => Ok('\u{2070}'),
        '1' => Ok('\u{00B9}'),
        '2' => Ok('\u{00B2}'),
        '3' => Ok('\u{00B3}'),
        '4' => Ok('\u{2074}'),
        '5' => Ok('\u{2075}'),
        '6' => Ok('\u{2076}'),
        '7' => Ok('\u{2077}'),
        '8' => Ok('\u{2078}'),
        '9' => Ok('\u{2079}'),
        'A' => Ok('\u{1D2C}'),
        'B' => Ok('\u{1D2E}'),
        'C' => Ok('\u{A7F2}'),
        'D' => Ok('\u{1D30}'),
        'E' => Ok('\u{1D31}'),
        'F' => Ok('\u{A7F3}'),
        'G' => Ok('\u{1D33}'),
        'H' => Ok('\u{1D34}'),
        'I' => Ok('\u{1D35}'),
        'J' => Ok('\u{1D36}'),
        'K' => Ok('\u{1D37}'),
        'L' => Ok('\u{1D38}'),
        'M' => Ok('\u{1D39}'),
        'N' => Ok('\u{1D3A}'),
        'O' => Ok('\u{1D3C}'),
        'P' => Ok('\u{1D3E}'),
        'Q' => Ok('\u{A7F4}'),
        'R' => Ok('\u{1D3F}'),
        'S' => Ok('\u{209B}'),
        'T' => Ok('\u{1D40}'),
        'U' => Ok('\u{1D41}'),
        'V' => Ok('\u{2C7D}'),
        'W' => Ok('\u{1D42}'),
        'X' => Ok('\u{2093}'),
        _ => Err(NoSuperscriptKnown(ch)),
    }
}

/// Why a stream of Lincoln Writer codes could not be converted to
/// Unicode.
#[derive(Debug, Clone, Copy, PartialEq, Eq, Structural)]
pub enum LincolnToUnicodeConversionFailure {
    /// The input value does not fit in 6 bits.
    CharacterOutOfRange(u8),
    /// The code has no known mapping.
    NoMapping(u8),
    /// The code maps to a character with no Unicode superscript
    /// form.
    CannotSuperscript(u8, char),
    /// The code maps to a character with no Unicode subscript form.
    CannotSubscript(u8, char),
}

/// The current script of a Lincoln Writer.
#[derive(Debug, Clone, Copy, PartialEq, Eq, Structural)]
pub enum Script {
    Normal,
    Super,
    Sub,
}

/// The current print colour of a Lincoln Writer.
#[derive(Debug, Clone, Copy, PartialEq, Eq, Structural)]
pub enum Colour {
    Black,
    Red,
}

/// The state a Lincoln Writer is in: current script, case and
/// colour.
#[derive(Debug, Clone, Copy, PartialEq, Eq, Structural)]
pub struct LincolnState {
    pub script: Script,
    pub uppercase: bool,
    pub colour: Colour,
}

/// The state a Lincoln Writer starts in: normal script, upper case,
/// black.
pub open spec fn spec_default_state() -> LincolnState {
    LincolnState { script: Script::Normal, uppercase: true, colour: Colour::Black }
}

impl Default for LincolnState {
    /// The state a Lincoln Writer starts in.
    fn default() -> (r: Self)
        ensures
            r == spec_default_state(),
    {
        LincolnState { script: Script::Normal, uppercase: true, colour: Colour::Black }
    }
}

/// A printable character together with the state it was printed in.
#[derive(Debug, Clone, Copy, PartialEq, Eq, Structural)]
pub struct DescribedChar {
    /// The character the code maps to in the current case, before
    /// any script is applied.
    pub base_char: char,
    /// The character as displayed under the current script, absent
    /// when the script has no form of the base character.
    pub display: Option<char>,
    /// The state the character was printed in.
    pub attributes: LincolnState,
}

/// The base character of printable code `b` in the given case, or
/// `None` when `b` is a state-changing or unmapped code.
pub open spec fn spec_lincoln_base_char(b: u8, uppercase: bool) -> Option<char> {
    let by_case = |upper: char, lower: char|
        if uppercase {
            Some(upper)
        } else {
            Some(lower)
        };
    match b {
        0o00 => by_case('0', '\u{261B}'),
        0o01 => by_case('1', '\u{03A3}'),
        0o02 => by_case('2', '|'),
        0o03 => by_case('3', '\u{2016}'),
        0o04 => by_case('4', '/'),
        0o05 => by_case('5', '\u{00D7}'),
        0o06 => by_case('6', '#'),
        0o07 => by_case('7', '\u{2192}'),
        0o10 => by_case('8', '<'),
        0o11 => by_case('9', '>'),
        0o12 => by_case('_', '\u{203E}'),
        0o13 => by_case('\u{25CB}', '\u{25A1}'),
        0o20 => by_case('A', '\u{2248}'),
        0o21 => by_case('B', '\u{2282}'),
        0o22 => by_case('C', '\u{2228}'),
        0o23 => by_case('D', 'q'),
        0o24 => by_case('E', '\u{03B3}'),
        0o25 => by_case('F', 't'),
        0o26 => by_case('G', 'w'),
        0o27 => by_case('H', 'x'),
        0o30 => by_case('I', 'i'),
        0o31 => by_case('J', 'y'),
        0o32 => by_case('K', 'z'),
        0o33 => by_case('L', '?'),
        0o34 => by_case('M', '\u{222A}'),
        0o35 => by_case('N', '\u{2229}'),
        0o36 => by_case('O', 'j'),
        0o37 => by_case('P', 'k'),
        0o40 => by_case('Q', 'a'),
        0o41 => by_case('R', '\u{0394}'),
        0o42 => by_case('S', 'p'),
        0o43 => by_case('T', '\u{2208}'),
        0o44 => by_case('U', 'h'),
        0o45 => by_case('V', '\u{2283}'),
        0o46 => by_case('W', '\u{03D0}'),
        0o47 => by_case('X', '^'),
        0o50 => by_case('Y', '\u{03BB}'),
        0o51 => by_case('Z', '~'),
        0o52 => by_case('(', '{'),
        0o53 => by_case(')', '}'),
        0o54 => by_case('+', '\u{2261}'),
        0o55 => by_case('-', '='),
        0o56 => by_case(',', '\u{0027}'),
        0o57 => by_case('.', '*'),
        0o60 => Some('\r'),
        0o61 => Some('\t'),
        0o62 => Some('\u{0008}'),
        0o70 => Some(' '),
        0o72 => Some('\n'),
        0o73 => Some('\u{008D}'),
        0o77 => Some('\u{007F}'),
        _ => None,
    }
}

/// True when code `b` has no mapping at all: the Lincoln Writer
/// control codes READ IN, BEGIN, NO, YES, WORD EXAM and STOP.
pub open spec fn spec_lincoln_no_mapping(b: u8) -> bool {
    b == 0o14 || b == 0o15 || b == 0o16 || b == 0o17 || b == 0o71 || b == 0o76
}

/// True when code `b` only changes the writer's state: colour,
/// script or case shifts.
pub open spec fn spec_lincoln_state_changer(b: u8) -> bool {
    b == 0o63 || b == 0o64 || b == 0o65 || b == 0o66 || b == 0o67 || b == 0o74 || b == 0o75
}

/// The writer's state after reading code `b` in state `st`.
pub open spec fn spec_lincoln_new_state(b: u8, st: LincolnState) -> LincolnState {
    match b {
        0o63 => LincolnState { colour: Colour::Black, ..st },
        0o64 => LincolnState { script: Script::Super, ..st },
        0o65 => LincolnState { script: Script::Normal, ..st },
        0o66 => LincolnState { script: Script::Sub, ..st },
        0o67 => LincolnState { colour: Colour::Red, ..st },
        0o74 => LincolnState { uppercase: false, ..st },
        0o75 => LincolnState { uppercase: true, ..st },
        _ => st,
    }
}

/// What reading code `b` in state `st` produces: a described
/// character for a printable code, nothing for a state change, and
/// a failure for an out-of-range or unmapped code.
pub open spec fn spec_lincoln_char(b: u8, st: LincolnState) -> Result<
    Option<DescribedChar>,
    LincolnToUnicodeConversionFailure,
> {
    if b >= 0o100 {
        Err(LincolnToUnicodeConversionFailure::CharacterOutOfRange(b))
    } else if spec_lincoln_no_mapping(b) {
        Err(LincolnToUnicodeConversionFailure::NoMapping(b))
    } else if spec_lincoln_state_changer(b) {
        Ok(None)
    } else {
        match spec_lincoln_base_char(b, st.uppercase) {
            Some(base) => {
                let display = match st.script {
                    Script::Normal => Some(base),
                    Script::Sub => spec_subscript_char(base),
                    Script::Super => spec_superscript_char(base),
                };
                Ok(Some(DescribedChar { base_char: base, display, attributes: st }))
            },
            // Unreachable: every code below 0o100 that neither
            // changes state nor lacks a mapping has a base
            // character.
            None => Err(LincolnToUnicodeConversionFailure::NoMapping(b)),
        }
    }
}

/// Read one Lincoln Writer code in the writer state `state`: update
/// the state for a state-changing code, or describe the printable
/// character the code maps to.
pub fn lincoln_char_to_described_char(lin_ch: &u8, state: &mut LincolnState) -> (r: Result<
    Option<DescribedChar>,
    LincolnToUnicodeConversionFailure,
>)
    ensures
        *final(state) == spec_lincoln_new_state(*lin_ch, *old(state)),
        r == spec_lincoln_char(*lin_ch, *old(state)),
{
    let b = *lin_ch;
    if b >= 0o100 {
        return Err(LincolnToUnicodeConversionFailure::CharacterOutOfRange(b));
    }
    if b == 0o14 || b == 0o15 || b == 0o16 || b == 0o17 || b == 0o71 || b == 0o76 {
        return Err(LincolnToUnicodeConversionFailure::NoMapping(b));
    }
    match b {
        0o63 => {
            state.colour = Colour::Black;
            return Ok(None);
        },
        0o64 => {
            state.script = Script::Super;
            return Ok(None);
        },
        0o65 => {
            state.script = Script::Normal;
            return Ok(None);
        },
        0o66 => {
            state.script = Script::Sub;
            return Ok(None);
        },
        0o67 => {
            state.colour = Colour::Red;
            return Ok(None);
        },
        0o74 => {
            state.uppercase = false;
            return Ok(None);
        },
        0o75 => {
            state.uppercase = true;
            return Ok(None);
        },
        _ => {},
    }
    let upper = state.uppercase;
    let base: char = match b {
        0o00 => if upper {
            '0'
        } else {
            '\u{261B}'
        },
        0o01 => if upper {
            '1'
        } else {
            '\u{03A3}'
        },
        0o02 => if upper {
            '2'
        } else {
            '|'
        },
        0o03 => if upper {
            '3'
        } else {
            '\u{2016}'
        },
        0o04 => if upper {
            '4'
        } else {
            '/'
        },
        0o05 => if upper {
            '5'
        } else {
            '\u{00D7}'
        },
        0o06 => if upper {
            '6'
        } else {
            '#'
        },
        0o07 => if upper {
            '7'
        } else {
            '\u{2192}'
        },
        0o10 => if upper {
            '8'
        } else {
            '<'
        },
        0o11 => if upper {
            '9'
        } else {
            '>'
        },
        0o12 => if upper {
            '_'
        } else {
            '\u{203E}'
        },
        0o13 => if upper {
            '\u{25CB}'
        } else {
            '\u{25A1}'
        },
        0o20 => if upper {
            'A'
        } else {
            '\u{2248}'
        },
        0o21 => if upper {
            'B'
        } else {
            '\u{2282}'
        },
        0o22 => if upper {
            'C'
        } else {
            '\u{2228}'
        },
        0o23 => if upper {
            'D'
        } else {
            'q'
        },
        0o24 => if upper {
            'E'
        } else {
            '\u{03B3}'
        },
        0o25 => if upper {
            'F'
        } else {
            't'
        },
        0o26 => if upper {
            'G'
        } else {
            'w'
        },
        0o27 => if upper {
            'H'
        } else {
            'x'
        },
        0o30 => if upper {
            'I'
        } else {
            'i'
        },
        0o31 => if upper {
            'J'
        } else {
            'y'
        },
        0o32 => if upper {
            'K'
        } else {
            'z'
        },
        0o33 => if upper {
            'L'
        } else {
            '?'
        },
        0o34 => if upper {
            'M'
        } else {
            '\u{222A}'
        },
        0o35 => if upper {
            'N'
        } else {
            '\u{2229}'
        },
        0o36 => if upper {
            'O'
        } else {
            'j'
        },
        0o37 => if upper {
            'P'
        } else {
            'k'
        },
        0o40 => if upper {
            'Q'
        } else {
            'a'
        },
        0o41 => if upper {
            'R'
        } else {
            '\u{0394}'
        },
        0o42 => if upper {
            'S'
        } else {
            'p'
        },
        0o43 => if upper {
            'T'
        } else {
            '\u{2208}'
        },
        0o44 => if upper {
            'U'
        } else {
            'h'
        },
        0o45 => if upper {
            'V'
        } else {
            '\u{2283}'
        },
        0o46 => if upper {
            'W'
        } else {
            '\u{03D0}'
        },
        0o47 => if upper {
            'X'
        } else {
            '^'
        },
        0o50 => if upper {
            'Y'
        } else {
            '\u{03BB}'
        },
        0o51 => if upper {
            'Z'
        } else {
            '~'
        },
        0o52 => if upper {
            '('
        } else {
            '{'
        },
        0o53 => if upper {
            ')'
        } else {
            '}'
        },
        0o54 => if upper {
            '+'
        } else {
            '\u{2261}'
        },
        0o55 => if upper {
            '-'
        } else {
            '='
        },
        0o56 => if upper {
            ','
        } else {
            '\u{0027}'
        },
        0o57 => if upper {
            '.'
        } else {
            '*'
        },
        0o60 => '\r',
        0o61 => '\t',
        0o62 => '\u{0008}',
        0o70 => ' ',
        0o72 => '\n',
        0o73 => '\u{008D}',
        _ => '\u{007F}',  // 0o77: NULLIFY, used on tape as delete
    };
    let display: Option<char> = match state.script {
        Script::Normal => Some(base),
        Script::Sub => match subscript_char(base) {
            Ok(c) => Some(c),
            Err(_) => None,
        },
        Script::Super => match superscript_char(base) {
            Ok(c) => Some(c),
            Err(_) => None,
        },
    };
    Ok(Some(DescribedChar { base_char: base, display, attributes: *state }))
}

/// The conversion of the Lincoln Writer codes `input[i..]` to
/// Unicode characters, starting in writer state `st` with the
/// characters `acc` already converted: each printable code appends
/// its displayed character; a code whose base character has no form
/// in the current script fails, as does an out-of-range or unmapped
/// code.
pub open spec fn spec_lincoln_to_unicode(
    input: Seq<u8>,
    i: int,
    st: LincolnState,
    acc: Seq<char>,
) -> Result<Seq<char>, LincolnToUnicodeConversionFailure>
    decreases input.len() - i,
{
    if i < 0 || i >= input.len() {
        Ok(acc)
    } else {
        let b = input[i];
        match spec_lincoln_char(b, st) {
            Err(e) => Err(e),
            Ok(None) => spec_lincoln_to_unicode(input, i + 1, spec_lincoln_new_state(b, st), acc),
            Ok(Some(dc)) => match dc.display {
                Some(d) => spec_lincoln_to_unicode(input, i + 1, st, acc.push(d)),
                None => if st.script == Script::Sub {
                    Err(LincolnToUnicodeConversionFailure::CannotSubscript(b, dc.base_char))
                } else {
                    Err(LincolnToUnicodeConversionFailure::CannotSuperscript(b, dc.base_char))
                },
            },
        }
    }
}

/// Relies on std's `FromIterator` impl for `String`: collecting
/// characters yields the string of exactly those characters in
/// order.
#[verifier::external_body]
fn chars_to_string(chars: &Vec<char>) -> (r: String)
    ensures
        r@ == chars@,
{
    chars.iter().collect()
}

/// Convert a stream of Lincoln Writer codes, taken from the lower 6
/// bits of the input values, to a Unicode string.  The writer starts
/// in the default state; any code that cannot be rendered fails the
/// whole conversion.
pub fn lincoln_to_unicode_strict(input: &[u8]) -> (r: Result<
    String,
    LincolnToUnicodeConversionFailure,
>)
    ensures
        match spec_lincoln_to_unicode(input@, 0, spec_default_state(), Seq::empty()) {
            Ok(cs) => r is Ok && r->Ok_0@ == cs,
            Err(e) => r == Err::<String, _>(e),
        },
{
    let mut out: Vec<char> = Vec::new();
    let mut state: LincolnState = LincolnState::default();
    let mut i: usize = 0;
    while i < input.len()
        invariant
            i <= input.len(),
            spec_lincoln_to_unicode(input@, 0, spec_default_state(), Seq::empty())
                == spec_lincoln_to_unicode(input@, i as int, state, out@),
        decreases input.len() - i,
    {
        let byte = input[i];
        match lincoln_char_to_described_char(&byte, &mut state) {
            Ok(Some(dc)) => {
                match dc.display {
                    Some(display) => {
                        out.push(display);
                    },
                    None => {
                        if dc.attributes.script == Script::Sub {
                            return Err(
                                LincolnToUnicodeConversionFailure::CannotSubscript(
                                    byte,
                                    dc.base_char,
                                ),
                            );
                        } else {
                            return Err(
                                LincolnToUnicodeConversionFailure::CannotSuperscript(
                                    byte,
                                    dc.base_char,
                                ),
                            );
                        }
                    },
                }
            },
            Ok(None) => {},
            Err(e) => {
                return Err(e);
            },
        }
        i += 1;
    }
    Ok(chars_to_string(&out))
}

/// A Lincoln Writer code together with the writer state that makes
/// it print a given character.
#[derive(Debug, Clone, Copy, PartialEq, Eq, Structural)]
pub struct LincChar {
    /// The state the writer must be in.
    pub state: LincolnState,
    /// The six-bit code.
    pub value: u8,
}

/// The mapping that a sequence of (character, code) entries
/// represents: a later entry for the same character overrides an
/// earlier one.
pub open spec fn entries_map(s: Seq<(char, LincChar)>) -> Map<char, LincChar>
    decreases s.len(),
{
    if s.len() == 0 {
        Map::empty()
    } else {
        entries_map(s.drop_last()).insert(s.last().0, s.last().1)
    }
}

/// Entries at or after position `i` whose characters all differ
/// from `ch` do not affect what the mapping says about `ch`.
proof fn lemma_entries_map_take_agree(s: Seq<(char, LincChar)>, i: int, ch: char)
    requires
        0 <= i <= s.len(),
        forall|j: int| i <= j < s.len() ==> (#[trigger] s[j]).0 != ch,
    ensures
        entries_map(s).contains_key(ch) == entries_map(s.take(i)).contains_key(ch),
        entries_map(s).contains_key(ch) ==> entries_map(s)[ch] == entries_map(s.take(i))[ch],
    decreases s.len() - i,
{
    if i == s.len() {
        assert(s.take(i) =~= s);
    } else {
        lemma_entries_map_take_agree(s, i + 1, ch);
        assert(s.take(i + 1).drop_last() =~= s.take(i));
        assert(s.take(i + 1).last() == s[i]);
    }
}

/// The map a sequence of entries represents, after one more entry.
proof fn lemma_entries_map_push(s: Seq<(char, LincChar)>, p: (char, LincChar))
    ensures
        entries_map(s.push(p)) == entries_map(s).insert(p.0, p.1),
{
    assert(s.push(p).drop_last() =~= s);
    assert(s.push(p).last() == p);
}

/// The index of mapping-construction step `idx`, decoded: the outer
/// loop runs over the three scripts, the middle one over the two
/// cases, the inner one over the 64 codes.
pub open spec fn spec_step_state(idx: int) -> LincolnState {
    LincolnState {
        script: if idx / 128 == 0 {
            Script::Normal
        } else if idx / 128 == 1 {
            Script::Super
        } else {
            Script::Sub
        },
        uppercase: (idx / 64) % 2 == 1,
        colour: Colour::Black,
    }
}

/// The mapping after the first `n` of the 384 construction steps:
/// step `idx` tries code `idx % 64` in the state `spec_step_state`
/// decodes from `idx`, and records the displayed character when
/// there is one.
pub open spec fn spec_build_mapping(n: int) -> Map<char, LincChar>
    decreases n,
{
    if n <= 0 {
        Map::empty()
    } else {
        let m = spec_build_mapping(n - 1);
        let idx = n - 1;
        let st = spec_step_state(idx);
        let value = (idx % 64) as u8;
        match spec_lincoln_char(value, st) {
            Ok(opt) => match opt {
                Some(dc) => match dc.display {
                    Some(d) => m.insert(d, LincChar { state: st, value }),
                    None => m,
                },
                None => m,
            },
            Err(_) => m,
        }
    }
}

/// A mapping from Unicode characters back to the Lincoln Writer
/// state and code that print them.
pub struct UnicodeToLincolnMapping {
    entries: Vec<(char, LincChar)>,
}

impl View for UnicodeToLincolnMapping {
    type V = Map<char, LincChar>;

    /// The mapping is viewed as a map from each representable
    /// character to its writer state and code.
    closed spec fn view(&self) -> Map<char, LincChar> {
        entries_map(self.entries@)
    }
}

impl UnicodeToLincolnMapping {
    /// Build the mapping by running every code through every script
    /// and case and recording what it displays.
    pub fn new() -> (r: UnicodeToLincolnMapping)
        ensures
            r@ == spec_build_mapping(384),
    {
        let mut entries: Vec<(char, LincChar)> = Vec::new();
        let mut n: usize = 0;
        while n < 384
            invariant
                n <= 384,
                entries_map(entries@) == spec_build_mapping(n as int),
            decreases 384 - n,
        {
            let script = if n / 128 == 0 {
                Script::Normal
            } else if n / 128 == 1 {
                Script::Super
            } else {
                Script::Sub
            };
            let uppercase = (n / 64) % 2 == 1;
            let value = (n % 64) as u8;
            let mut state = LincolnState { script, uppercase, colour: Colour::Black };
            let ghost st0 = state;
            proof {
                assert(st0 == spec_step_state(n as int));
            }
            match lincoln_char_to_described_char(&value, &mut state) {
                Ok(Some(dc)) => {
                    match dc.display {
                        Some(display) => {
                            proof {
                                lemma_entries_map_push(
                                    entries@,
                                    (display, LincChar { state: st0, value }),
                                );
                                // A code that displays a character
                                // changes no state.
                                assert(state == st0);
                            }
                            entries.push((display, LincChar { state, value }));
                        },
                        None => {},
                    }
                },
                Ok(None) => {},
                Err(_) => {},
            }
            n += 1;
        }
        UnicodeToLincolnMapping { entries }
    }

    /// The writer state and code that print `ch`, if any: the
    /// mapping's entry for `ch`.
    pub fn lookup(&self, ch: char) -> (r: Option<LincChar>)
        ensures
            r == (if self@.contains_key(ch) {
                Some(self@[ch])
            } else {
                Option::<LincChar>::None
            }),
    {
        let mut i: usize = self.entries.len();
        while i > 0
            invariant
                i <= self.entries.len(),
                forall|j: int| i <= j < self.entries@.len() ==> (#[trigger] self.entries@[j]).0
                    != ch,
            decreases i,
        {
            i = i - 1;
            let entry = self.entries[i];
            if entry.0 == ch {
                proof {
                    lemma_entries_map_take_agree(self.entries@, i + 1, ch);
                    assert(self.entries@.take(i as int + 1).drop_last() =~= self.entries@.take(
                        i as int,
                    ));
                    assert(self.entries@.take(i as int + 1).last() == self.entries@[i as int]);
                }
                return Some(entry.1);
            }
        }
        proof {
            lemma_entries_map_take_agree(self.entries@, 0, ch);
            assert(self.entries@.take(0) =~= Seq::<(char, LincChar)>::empty());
        }
        None
    }

    /// The conversion of the characters `s[i..]` to Lincoln Writer
    /// codes under mapping `m`, with case shift `cu` and script
    /// shift `cs` currently in force and the codes `acc` already
    /// emitted: before each character whose case or script differs
    /// from the one in force, the matching shift code is emitted.
    pub open spec fn spec_to_lincoln(
        m: Map<char, LincChar>,
        s: Seq<char>,
        i: int,
        cu: Option<bool>,
        cs: Option<Script>,
        acc: Seq<u8>,
    ) -> Result<Seq<u8>, UnicodeToLincolnConversionFailure>
        decreases s.len() - i,
    {
        if i < 0 || i >= s.len() {
            Ok(acc)
        } else {
            let ch = s[i];
            if !m.contains_key(ch) {
                Err(UnicodeToLincolnConversionFailure::NoMapping(ch))
            } else {
                let lch = m[ch];
                let acc1 = if cu == Some(lch.state.uppercase) {
                    acc
                } else {
                    acc.push(
                        if lch.state.uppercase {
                            0o75u8
                        } else {
                            0o74u8
                        },
                    )
                };
                let acc2 = if cs == Some(lch.state.script) {
                    acc1
                } else {
                    acc1.push(
                        match lch.state.script {
                            Script::Super => 0o64u8,
                            Script::Normal => 0o65u8,
                            Script::Sub => 0o66u8,
                        },
                    )
                };
                Self::spec_to_lincoln(
                    m,
                    s,
                    i + 1,
                    Some(lch.state.uppercase),
                    Some(lch.state.script),
                    acc2.push(lch.value),
                )
            }
        }
    }

    /// Convert a Unicode string to Lincoln Writer codes, emitting
    /// case and script shift codes where needed.  A character the
    /// mapping does not contain fails the whole conversion.
    pub fn to_lincoln(&self, s: &str) -> (r: Result<Vec<u8>, UnicodeToLincolnConversionFailure>)
        ensures
            match Self::spec_to_lincoln(
                self@,
                s@,
                0,
                Option::<bool>::None,
                Option::<Script>::None,
                Seq::empty(),
            ) {
                Ok(bs) => r is Ok && r->Ok_0@ == bs,
                Err(e) => r == Err::<Vec<u8>, _>(e),
            },
    {
        let mut result: Vec<u8> = Vec::new();
        let mut current_uppercase: Option<bool> = None;
        let mut current_script: Option<Script> = None;
        let len = s.unicode_len();
        let mut i: usize = 0;
        while i < len
            invariant
                i <= len,
                len == s@.len(),
                Self::spec_to_lincoln(
                    self@,
                    s@,
                    0,
                    Option::<bool>::None,
                    Option::<Script>::None,
                    Seq::empty(),
                ) == Self::spec_to_lincoln(
                    self@,
                    s@,
                    i as int,
                    current_uppercase,
                    current_script,
                    result@,
                ),
            decreases len - i,
        {
            let ch = s.get_char(i);
            match self.lookup(ch) {
                None => {
                    return Err(UnicodeToLincolnConversionFailure::NoMapping(ch));
                },
                Some(lch) => {
                    let same_case = match current_uppercase {
                        Some(u) => u == lch.state.uppercase,
                        None => false,
                    };
                    if !same_case {
                        result.push(
                            if lch.state.uppercase {
                                0o75
                            } else {
                                0o74
                            },
                        );
                        current_uppercase = Some(lch.state.uppercase);
                    }
                    let same_script = match current_script {
                        Some(sc) => sc == lch.state.script,
                        None => false,
                    };
                    if !same_script {
                        result.push(
                            match lch.state.script {
                                Script::Super => 0o64,
                                Script::Normal => 0o65,
                                Script::Sub => 0o66,
                            },
                        );
                        current_script = Some(lch.state.script);
                    }
                    result.push(lch.value);
                },
            }
            i += 1;
        }
        Ok(result)
    }
}

/// Why a Unicode string could not be converted to Lincoln Writer
/// codes.
#[derive(Debug, Clone, Copy, PartialEq, Eq, Structural)]
pub enum UnicodeToLincolnConversionFailure {
    /// The character has no Lincoln Writer representation.
    NoMapping(char),
}

} // verus!
