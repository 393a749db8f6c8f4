//! Reading the instruction reference, one line at a time, into table
//! entries.
use vstd::prelude::*;
use vstd::string::StringExecFns;

use crate::inst::{addr_from_name, parse_addr, Addr, Inst, InstView};
use crate::text::{
    char_pred, index_of, lemma_index_of, join, join_space, parse_uint, parse_uint_spec, split_n, split_whitespace,
    split_ws, splitn, string_views, trim, trim_end_by, trim_end_char, trim_str, views,
};

verus! {

#[verifier::external_type_specification]
#[verifier::external_body]
pub struct ExRegex(regex::Regex);

/// Whether `regex::Regex::new` accepts `pattern`.
pub uninterp spec fn regex_valid(pattern: Seq<char>) -> bool;

/// Whether the regular expression `pattern` matches somewhere in `text`
/// (`regex::Regex::is_match`).
pub uninterp spec fn regex_matches(pattern: Seq<char>, text: Seq<char>) -> bool;

/// `c` is an ASCII capital letter (`[A-Z]`).
pub open spec fn is_capital(c: char) -> bool {
    'A' <= c <= 'Z'
}

/// `c` is an ASCII digit (`[0-9]`).
pub open spec fn is_digit(c: char) -> bool {
    '0' <= c <= '9'
}

/// `sub` occurs in `text` (what a pattern of plain characters matches).
pub open spec fn contains_seq(text: Seq<char>, sub: Seq<char>) -> bool {
    exists|i: int| 0 <= i <= text.len() - sub.len() && #[trigger] text.subrange(i, i + sub.len()) == sub
}

/// What `^[A-Z][A-Z][A-Z] .*$` matches: three capitals and a space at the
/// start, and no line break after them (`.` does not match `\n`, and `$` is
/// the end of the text).
pub open spec fn title_line(text: Seq<char>) -> bool {
    &&& text.len() >= 4
    &&& is_capital(text[0])
    &&& is_capital(text[1])
    &&& is_capital(text[2])
    &&& text[3] == ' '
    &&& forall|i: int| 4 <= i < text.len() ==> text[i] != '\n'
}

/// What `^[0-9A-Z][0-9A-Z]$` matches: exactly two digits or capitals.
pub open spec fn opcode_word(text: Seq<char>) -> bool {
    &&& text.len() == 2
    &&& (is_digit(text[0]) || is_capital(text[0]))
    &&& (is_digit(text[1]) || is_capital(text[1]))
}

/// What `^[0-9]+` matches: a digit at the start.
pub open spec fn number_word(text: Seq<char>) -> bool {
    text.len() >= 1 && is_digit(text[0])
}

/// A compiled regular expression, together with its source text. Only
/// `Pattern::new` builds one, so the source is always the expression's own.
pub struct Pattern {
    source: String,
    re: regex::Regex,
}

impl Pattern {
    /// The source text the expression was compiled from.
    pub closed spec fn source(&self) -> Seq<char> {
        self.source@
    }

    /// Calls `regex::Regex::new`. Trusted: the result is `Some` exactly when
    /// the crate accepts the pattern (named `regex_valid`), and it remembers
    /// the pattern's text. Of which patterns are valid, only the five
    /// patterns of the instruction reference are stated to be: they are
    /// well-formed under the crate's syntax and small.
    #[verifier::external_body]
    pub fn new(pattern: &str) -> (r: Option<Pattern>)
        ensures
            r is Some <==> regex_valid(pattern@),
            r matches Some(p) ==> p.source() == pattern@,
            pattern@ == name_re() || pattern@ == flg_re() || pattern@ == bar_re() || pattern@
                == opc_re() || pattern@ == num_re() ==> r is Some,
    {
        match regex::Regex::new(pattern) {
            Ok(re) => Some(Pattern { source: pattern.to_string(), re }),
            Err(_) => None,
        }
    }

    /// Calls `regex::Regex::is_match`. Trusted: the result is named
    /// `regex_matches` of the expression's source and the text. The regex
    /// semantics in general are not stated; for the five patterns of the
    /// instruction reference, what the crate's syntax makes them match is.
    #[verifier::external_body]
    pub fn is_match(&self, text: &str) -> (r: bool)
        ensures
            r == regex_matches(self.source(), text@),
            self.source() == name_re() ==> (r <==> title_line(text@)),
            self.source() == flg_re() ==> (r <==> contains_seq(text@, flg_re())),
            self.source() == bar_re() ==> (r <==> contains_seq(text@, bar_re())),
            self.source() == opc_re() ==> (r <==> opcode_word(text@)),
            self.source() == num_re() ==> (r <==> number_word(text@)),
    {
        self.re.is_match(text)
    }
}

/// A title line: three capital letters, a space, and a description.
pub open spec fn name_re() -> Seq<char> {
    "^[A-Z][A-Z][A-Z] .*$"@
}

/// The line that heads the flag columns.
pub open spec fn flg_re() -> Seq<char> {
    "N Z C I D V"@
}

/// The bar above the table of addressing modes.
pub open spec fn bar_re() -> Seq<char> {
    "--------------------------------------------"@
}

/// An opcode: two characters, digits or capitals.
pub open spec fn opc_re() -> Seq<char> {
    "^[0-9A-Z][0-9A-Z]$"@
}

/// A number: it starts with a digit.
pub open spec fn num_re() -> Seq<char> {
    "^[0-9]+"@
}

/// Where the reader is in the description of one instruction.
#[derive(Clone, Copy, Debug, PartialEq, Eq, Structural)]
pub enum State {
    /// Looking for name (e.g. "AND")
    Name,
    /// Looking for flag ("N Z C I D V")
    Flg,
    /// Looking for flag state ("- - - - - -")
    FlgState,
    /// Looking for the bar before operations
    OpsBar,
    /// Looking for operations (e.g. "relative BCC oper...")
    Ops,
}

/// Reads the instruction reference line by line.
pub struct Parser {
    pub state: State,
    pub insts: Vec<Inst>,
    pub name: String,
    pub desc: String,
    pub flgstate: Vec<String>,
}

/// The reader's state with strings as character sequences.
pub struct ParserView {
    pub state: State,
    pub insts: Seq<InstView>,
    pub name: Seq<char>,
    pub desc: Seq<char>,
    pub flgstate: Seq<Seq<char>>,
}

impl View for Parser {
    type V = ParserView;

    open spec fn view(&self) -> ParserView {
        ParserView {
            state: self.state,
            insts: self.insts@.map_values(|i: Inst| i@),
            name: self.name@,
            desc: self.desc@,
            flgstate: string_views(self.flgstate@),
        }
    }
}

/// What the words after the addressing mode on an operation line hold.
pub struct Scan {
    pub opc: Option<u8>,
    pub bytes: Option<usize>,
    pub cycles: Option<usize>,
    pub mnem: Seq<Seq<char>>,
    pub failed: bool,
}

/// Reads one more word: the first word that looks like an opcode is the
/// opcode (in hexadecimal); of the words that look like numbers, the first is
/// the length, the second the cycle count (trailing `*` dropped), and any
/// further one is part of the assembler form, as is every other word. A word
/// that looks like a number but does not parse as one fails the scan.
pub open spec fn scan_step(acc: Scan, t: Seq<char>) -> Scan {
    if acc.failed {
        acc
    } else if acc.opc is None && opcode_word(t) {
        match parse_uint_spec(t, 16, 255) {
            Some(v) => Scan { opc: Some(v as u8), ..acc },
            None => Scan { failed: true, ..acc },
        }
    } else if number_word(t) {
        if acc.bytes is None {
            match parse_uint_spec(t, 10, usize::MAX as int) {
                Some(v) => Scan { bytes: Some(v as usize), ..acc },
                None => Scan { failed: true, ..acc },
            }
        } else if acc.cycles is None {
            match parse_uint_spec(trim_end_by(t, char_pred('*')), 10, usize::MAX as int) {
                Some(v) => Scan { cycles: Some(v as usize), ..acc },
                None => Scan { failed: true, ..acc },
            }
        } else {
            Scan { mnem: acc.mnem.push(t), ..acc }
        }
    } else {
        Scan { mnem: acc.mnem.push(t), ..acc }
    }
}

/// The scan of the words `toks`, from the left.
pub open spec fn scan(toks: Seq<Seq<char>>) -> Scan
    decreases toks.len(),
{
    if toks.len() == 0 {
        Scan { opc: None, bytes: None, cycles: None, mnem: Seq::empty(), failed: false }
    } else {
        scan_step(scan(toks.drop_last()), toks.last())
    }
}

/// Whether an operation line with words `toks` yields an entry: the first
/// word names an addressing mode, and the scan of the other words succeeds
/// with an opcode, a length and a cycle count.
pub open spec fn ops_line_ok(toks: Seq<Seq<char>>) -> bool {
    let sc = scan(toks.skip(1));
    &&& addr_from_name(toks[0]) is Some
    &&& !sc.failed
    &&& sc.opc is Some
    &&& sc.bytes is Some
    &&& sc.cycles is Some
}

/// The entry an operation line with words `toks` yields for the instruction
/// being read.
pub open spec fn ops_entry(p: ParserView, toks: Seq<Seq<char>>) -> InstView {
    let sc = scan(toks.skip(1));
    InstView {
        name: p.name,
        desc: p.desc,
        mnem: join(sc.mnem, " "@),
        opcode: sc.opc->0,
        addr: addr_from_name(toks[0])->0,
        len: sc.bytes->0,
        cycles: sc.cycles->0,
        state: p.flgstate,
    }
}

/// Whether reading `line` in the reader's current state completes: only an
/// operation line can fail, when it is not blank and yields no entry.
pub open spec fn parse_ok(p: ParserView, line: Seq<char>) -> bool {
    match p.state {
        State::Ops => split_ws(line).len() > 0 ==> ops_line_ok(split_ws(line)),
        _ => true,
    }
}

/// The reader after `line`:
/// - looking for a name, a title line gives the mnemonic and description
///   (split at the first space, both trimmed) and moves on to the flags;
/// - the flag heading moves on to the flag states;
/// - the next line, trimmed and split at spaces into at most six, is the
///   flag states; then the bar is looked for;
/// - the bar moves on to the operations;
/// - each operation line adds an entry; a blank line ends the instruction.
/// Any other line leaves the reader as it was.
pub open spec fn parse_spec(p: ParserView, line: Seq<char>) -> ParserView {
    match p.state {
        State::Name => if title_line(line) {
            let k = index_of(line, ' ');
            ParserView {
                state: State::Flg,
                name: trim(line.take(k)),
                desc: trim(line.skip(k + 1)),
                ..p
            }
        } else {
            p
        },
        State::Flg => if contains_seq(line, flg_re()) {
            ParserView { state: State::FlgState, ..p }
        } else {
            p
        },
        State::FlgState => ParserView { flgstate: splitn(trim(line), 6, ' '), state: State::OpsBar, ..p },
        State::OpsBar => if contains_seq(line, bar_re()) {
            ParserView { state: State::Ops, ..p }
        } else {
            p
        },
        State::Ops => {
            let toks = split_ws(line);
            if toks.len() == 0 {
                ParserView { state: State::Name, ..p }
            } else {
                ParserView { insts: p.insts.push(ops_entry(p, toks)), ..p }
            }
        },
    }
}

/// The scan of the words after the addressing mode, as it is carried out.
pub struct ScanState {
    pub opc: Option<u8>,
    pub bytes: Option<usize>,
    pub cycles: Option<usize>,
    pub mnem: Vec<String>,
    pub failed: bool,
}

impl ScanState {
    pub open spec fn matches(&self, sc: Scan) -> bool {
        &&& self.opc == sc.opc
        &&& self.bytes == sc.bytes
        &&& self.cycles == sc.cycles
        &&& string_views(self.mnem@) == sc.mnem
        &&& self.failed == sc.failed
    }
}

/// Scans `toks[1..]` with the opcode pattern `re_opc` and number pattern `re_num`.
fn scan_words(toks: &Vec<&str>, re_opc: &Pattern, re_num: &Pattern) -> (r: ScanState)
    requires
        toks@.len() > 0,
        re_opc.source() == opc_re(),
        re_num.source() == num_re(),
    ensures
        r.matches(scan(views(toks@).skip(1))),
{
    let ghost words = views(toks@).skip(1);
    let mut st = ScanState { opc: None, bytes: None, cycles: None, mnem: Vec::new(), failed: false };
    let n = toks.len();
    let mut i: usize = 1;
    assert(words.take(0) =~= Seq::<Seq<char>>::empty());
    assert(string_views(st.mnem@) =~= Seq::<Seq<char>>::empty());
    while i < n
        invariant
            n == toks@.len(),
            1 <= i <= n,
            words == views(toks@).skip(1),
            re_opc.source() == opc_re(),
            re_num.source() == num_re(),
            st.matches(scan(words.take(i - 1))),
        decreases n - i,
    {
        let t = toks[i];
        assert(words.take(i as int).drop_last() =~= words.take(i - 1));
        assert(views(toks@)[i as int] == toks@[i as int]@);
        assert(words.take(i as int).last() == t@);
        assert(scan(words.take(i as int)) == scan_step(scan(words.take(i - 1)), t@));
        if !st.failed {
            if st.opc.is_none() && re_opc.is_match(t) {
                match parse_uint(t, 16, 255) {
                    Some(v) => st.opc = Some(v as u8),
                    None => st.failed = true,
                }
            } else if re_num.is_match(t) {
                if st.bytes.is_none() {
                    match parse_uint(t, 10, usize::MAX) {
                        Some(v) => st.bytes = Some(v),
                        None => st.failed = true,
                    }
                } else if st.cycles.is_none() {
                    match parse_uint(trim_end_char(t, '*'), 10, usize::MAX) {
                        Some(v) => st.cycles = Some(v),
                        None => st.failed = true,
                    }
                } else {
                    let ghost before = st.mnem@;
                    st.mnem.push(String::from_str(t));
                    assert(string_views(st.mnem@) =~= string_views(before).push(t@));
                }
            } else {
                let ghost before = st.mnem@;
                st.mnem.push(String::from_str(t));
                assert(string_views(st.mnem@) =~= string_views(before).push(t@));
            }
        }
        i += 1;
    }
    assert(words.take(n - 1) =~= words);
    st
}

/// Owned copies of string slices.
fn to_strings(pieces: &Vec<&str>) -> (r: Vec<String>)
    ensures
        string_views(r@) == views(pieces@),
{
    let mut r: Vec<String> = Vec::new();
    let n = pieces.len();
    let mut i: usize = 0;
    while i < n
        invariant
            n == pieces@.len(),
            i <= n,
            string_views(r@) == views(pieces@).take(i as int),
        decreases n - i,
    {
        let ghost before = r@;
        let s = String::from_str(pieces[i]);
        assert(views(pieces@)[i as int] == pieces@[i as int]@);
        r.push(s);
        assert(string_views(r@) =~= string_views(before).push(s@));
        assert(string_views(r@) =~= views(pieces@).take(i + 1));
        i += 1;
    }
    assert(views(pieces@).take(n as int) =~= views(pieces@));
    r
}

/// Copies of strings.
fn clone_strings(v: &Vec<String>) -> (r: Vec<String>)
    ensures
        string_views(r@) == string_views(v@),
{
    let mut r: Vec<String> = Vec::new();
    let n = v.len();
    let mut i: usize = 0;
    while i < n
        invariant
            n == v@.len(),
            i <= n,
            string_views(r@) == string_views(v@).take(i as int),
        decreases n - i,
    {
        let ghost before = r@;
        let s = v[i].clone();
        assert(string_views(v@)[i as int] == v@[i as int]@);
        r.push(s);
        assert(string_views(r@) =~= string_views(before).push(s@));
        assert(string_views(r@) =~= string_views(v@).take(i + 1));
        i += 1;
    }
    assert(string_views(v@).take(n as int) =~= string_views(v@));
    r
}

/// Whether the words of an operation line yield an entry.
fn ops_line_check(toks: &Vec<&str>) -> (b: bool)
    requires
        toks@.len() > 0,
    ensures
        b == ops_line_ok(views(toks@)),
{
    let addr_ok = match parse_addr(toks[0]) {
        Ok(_) => true,
        Err(_) => false,
    };
    let re_opc = Pattern::new("^[0-9A-Z][0-9A-Z]$");
    let re_num = Pattern::new("^[0-9]+");
    match (re_opc, re_num) {
        (Some(re_opc), Some(re_num)) => {
            let st = scan_words(toks, &re_opc, &re_num);
            addr_ok && !st.failed && st.opc.is_some() && st.bytes.is_some() && st.cycles.is_some()
        },
        _ => false,
    }
}

impl Parser {
    /// A reader looking for the first instruction's name, with no entries yet.
    pub fn new() -> (p: Self)
        ensures
            p@ == (ParserView {
                state: State::Name,
                insts: Seq::empty(),
                name: Seq::empty(),
                desc: Seq::empty(),
                flgstate: Seq::empty(),
            }),
    {
        let p = Self {
            state: State::Name,
            insts: Vec::new(),
            name: String::new(),
            desc: String::new(),
            flgstate: Vec::new(),
        };
        assert(p@.insts =~= Seq::empty());
        assert(p@.flgstate =~= Seq::empty());
        p
    }

    /// Whether reading `line` now completes (`parse_ok`): a line that is not
/// blank, read as an operation line, must yield an entry.
    pub fn can_parse(&self, line: &str) -> (b: bool)
        ensures
            b == parse_ok(self@, line@),
    {
        match self.state {
            State::Name | State::Flg | State::FlgState | State::OpsBar => true,
            State::Ops => {
                let tokens = split_whitespace(line);
                if tokens.len() == 0 {
                    true
                } else {
                    ops_line_check(&tokens)
                }
            },
        }
    }

    /// Reads one line of the instruction reference (see `parse_spec`).
    pub fn parse(&mut self, line: &str)
        requires
            parse_ok(old(self)@, line@),
        ensures
            final(self)@ == parse_spec(old(self)@, line@),
    {
        let state = self.state;
        match state {
            State::Name => {
                let re = match Pattern::new("^[A-Z][A-Z][A-Z] .*$") {
                    Some(re) => re,
                    None => {
                        return;
                    },
                };
                if re.is_match(line) {
                    let title = split_n(line, 2, ' ');
                    proof {
                        lemma_index_of(line@, ' ', 3);
                    }
                    let ghost k = index_of(line@, ' ');
                    assert(splitn(line@, 2, ' ') =~= seq![line@.take(k), line@.skip(k + 1)]) by {
                        reveal_with_fuel(splitn, 2);
                    }
                    assert(views(title@).len() == title@.len());
                    assert(views(title@)[0] == title@[0]@);
                    assert(views(title@)[1] == title@[1]@);
                    let op = trim_str(title[0]);
                    let desc = trim_str(title[1]);
                    self.state = State::Flg;
                    self.name = String::from_str(op);
                    self.desc = String::from_str(desc);
                }
            },
            State::Flg => {
                let re = match Pattern::new("N Z C I D V") {
                    Some(re) => re,
                    None => {
                        return;
                    },
                };
                if re.is_match(line) {
                    self.state = State::FlgState;
                }
            },
            State::FlgState => {
                let pieces = split_n(trim_str(line), 6, ' ');
                self.flgstate = to_strings(&pieces);
                self.state = State::OpsBar;
            },
            State::OpsBar => {
                let re = match Pattern::new("--------------------------------------------") {
                    Some(re) => re,
                    None => {
                        return;
                    },
                };
                if re.is_match(line) {
                    self.state = State::Ops;
                }
            },
            State::Ops => {
                let tokens = split_whitespace(line);
                if tokens.len() == 0 {
                    self.state = State::Name;
                    return;
                }
                let addr = match parse_addr(tokens[0]) {
                    Ok(a) => a,
                    Err(_) => {
                        return;
                    },
                };
                let re_opc = match Pattern::new("^[0-9A-Z][0-9A-Z]$") {
                    Some(re) => re,
                    None => {
                        return;
                    },
                };
                let re_num = match Pattern::new("^[0-9]+") {
                    Some(re) => re,
                    None => {
                        return;
                    },
                };
                let st = scan_words(&tokens, &re_opc, &re_num);
                let (opcode, len, cycles) = match (st.opc, st.bytes, st.cycles) {
                    (Some(o), Some(b), Some(c)) => (o, b, c),
                    _ => {
                        return;
                    },
                };
                let inst = Inst {
                    name: self.name.clone(),
                    desc: self.desc.clone(),
                    mnem: join_space(&st.mnem),
                    opcode,
                    addr,
                    len,
                    cycles,
                    state: clone_strings(&self.flgstate),
                };
                let ghost before = self.insts@;
                self.insts.push(inst);
                assert(self@.insts =~= old(self)@.insts.push(ops_entry(old(self)@, views(tokens@))));
            },
        }
    }

    /// Reads `line` when that completes, and says whether it did; otherwise
    /// the reader is left as it was.
    pub fn try_parse(&mut self, line: &str) -> (ok: bool)
        ensures
            ok == parse_ok(old(self)@, line@),
            ok ==> final(self)@ == parse_spec(old(self)@, line@),
            !ok ==> final(self)@ == old(self)@,
    {
        if self.can_parse(line) {
            self.parse(line);
            true
        } else {
            false
        }
    }
}

} // verus!
