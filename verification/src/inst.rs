//! The instruction table: addressing modes and one entry per opcode.
use vstd::prelude::*;
use vstd::string::StrSliceExecFns;
use vstd::string::StringExecFns;

use crate::cpu::{hex2, push_hex2};

verus! {

/// How an instruction finds its operand.
#[derive(Clone, Copy, Debug, PartialEq, Eq, Structural)]
pub enum Addr {
    Acc,
    Imp,
    Imm,
    Zero,
    ZeroX,
    ZeroY,
    Rel,
    Abs,
    AbsX,
    AbsY,
    Ind,
    IndX,
    IndY,
}

/// The name of an addressing mode in the instruction reference.
pub open spec fn addr_name(a: Addr) -> Seq<char> {
    match a {
        Addr::Acc => "accumulator"@,
        Addr::Imp => "implied"@,
        Addr::Imm => "immidiate"@,
        Addr::Zero => "zeropage"@,
        Addr::ZeroX => "zeropage,X"@,
        Addr::ZeroY => "zeropage,Y"@,
        Addr::Rel => "relative"@,
        Addr::Abs => "absolute"@,
        Addr::AbsX => "absolute,X"@,
        Addr::AbsY => "absolute,Y"@,
        Addr::Ind => "indirect"@,
        Addr::IndX => "(indirect,X)"@,
        Addr::IndY => "(indirect),Y"@,
    }
}

/// The addressing mode whose name is `s`, if there is one.
pub open spec fn addr_from_name(s: Seq<char>) -> Option<Addr> {
    if s == "accumulator"@ {
        Some(Addr::Acc)
    } else if s == "implied"@ {
        Some(Addr::Imp)
    } else if s == "immidiate"@ {
        Some(Addr::Imm)
    } else if s == "zeropage"@ {
        Some(Addr::Zero)
    } else if s == "zeropage,X"@ {
        Some(Addr::ZeroX)
    } else if s == "zeropage,Y"@ {
        Some(Addr::ZeroY)
    } else if s == "relative"@ {
        Some(Addr::Rel)
    } else if s == "absolute"@ {
        Some(Addr::Abs)
    } else if s == "absolute,X"@ {
        Some(Addr::AbsX)
    } else if s == "absolute,Y"@ {
        Some(Addr::AbsY)
    } else if s == "indirect"@ {
        Some(Addr::Ind)
    } else if s == "(indirect,X)"@ {
        Some(Addr::IndX)
    } else if s == "(indirect),Y"@ {
        Some(Addr::IndY)
    } else {
        None
    }
}

/// Every addressing mode is found again from its name.
pub proof fn lemma_addr_name_round_trip(a: Addr)
    ensures
        addr_from_name(addr_name(a)) == Some(a),
{
    match a {
        Addr::Acc => {
            reveal_strlit("accumulator");
        },
        Addr::Imp => {
            reveal_strlit("implied");
            reveal_strlit("accumulator");
            assert("implied"@.len() != "accumulator"@.len());
            assert("implied"@ != "accumulator"@);
        },
        Addr::Imm => {
            reveal_strlit("immidiate");
            reveal_strlit("accumulator");
            assert("immidiate"@.len() != "accumulator"@.len());
            assert("immidiate"@ != "accumulator"@);
            reveal_strlit("implied");
            assert("immidiate"@.len() != "implied"@.len());
            assert("immidiate"@ != "implied"@);
        },
        Addr::Zero => {
            reveal_strlit("zeropage");
            reveal_strlit("accumulator");
            assert("zeropage"@.len() != "accumulator"@.len());
            assert("zeropage"@ != "accumulator"@);
            reveal_strlit("implied");
            assert("zeropage"@.len() != "implied"@.len());
            assert("zeropage"@ != "implied"@);
            reveal_strlit("immidiate");
            assert("zeropage"@.len() != "immidiate"@.len());
            assert("zeropage"@ != "immidiate"@);
        },
        Addr::ZeroX => {
            reveal_strlit("zeropage,X");
            reveal_strlit("accumulator");
            assert("zeropage,X"@.len() != "accumulator"@.len());
            assert("zeropage,X"@ != "accumulator"@);
            reveal_strlit("implied");
            assert("zeropage,X"@.len() != "implied"@.len());
            assert("zeropage,X"@ != "implied"@);
            reveal_strlit("immidiate");
            assert("zeropage,X"@.len() != "immidiate"@.len());
            assert("zeropage,X"@ != "immidiate"@);
            reveal_strlit("zeropage");
            assert("zeropage,X"@.len() != "zeropage"@.len());
            assert("zeropage,X"@ != "zeropage"@);
        },
        Addr::ZeroY => {
            reveal_strlit("zeropage,Y");
            reveal_strlit("accumulator");
            assert("zeropage,Y"@.len() != "accumulator"@.len());
            assert("zeropage,Y"@ != "accumulator"@);
            reveal_strlit("implied");
            assert("zeropage,Y"@.len() != "implied"@.len());
            assert("zeropage,Y"@ != "implied"@);
            reveal_strlit("immidiate");
            assert("zeropage,Y"@.len() != "immidiate"@.len());
            assert("zeropage,Y"@ != "immidiate"@);
            reveal_strlit("zeropage");
            assert("zeropage,Y"@.len() != "zeropage"@.len());
            assert("zeropage,Y"@ != "zeropage"@);
            reveal_strlit("zeropage,X");
            assert("zeropage,Y"@[9] != "zeropage,X"@[9]);
            assert("zeropage,Y"@ != "zeropage,X"@);
        },
        Addr::Rel => {
            reveal_strlit("relative");
            reveal_strlit("accumulator");
            assert("relative"@.len() != "accumulator"@.len());
            assert("relative"@ != "accumulator"@);
            reveal_strlit("implied");
            assert("relative"@.len() != "implied"@.len());
            assert("relative"@ != "implied"@);
            reveal_strlit("immidiate");
            assert("relative"@.len() != "immidiate"@.len());
            assert("relative"@ != "immidiate"@);
            reveal_strlit("zeropage");
            assert("relative"@[0] != "zeropage"@[0]);
            assert("relative"@ != "zeropage"@);
            reveal_strlit("zeropage,X");
            assert("relative"@.len() != "zeropage,X"@.len());
            assert("relative"@ != "zeropage,X"@);
            reveal_strlit("zeropage,Y");
            assert("relative"@.len() != "zeropage,Y"@.len());
            assert("relative"@ != "zeropage,Y"@);
        },
        Addr::Abs => {
            reveal_strlit("absolute");
            reveal_strlit("accumulator");
            assert("absolute"@.len() != "accumulator"@.len());
            assert("absolute"@ != "accumulator"@);
            reveal_strlit("implied");
            assert("absolute"@.len() != "implied"@.len());
            assert("absolute"@ != "implied"@);
            reveal_strlit("immidiate");
            assert("absolute"@.len() != "immidiate"@.len());
            assert("absolute"@ != "immidiate"@);
            reveal_strlit("zeropage");
            assert("absolute"@[0] != "zeropage"@[0]);
            assert("absolute"@ != "zeropage"@);
            reveal_strlit("zeropage,X");
            assert("absolute"@.len() != "zeropage,X"@.len());
            assert("absolute"@ != "zeropage,X"@);
            reveal_strlit("zeropage,Y");
            assert("absolute"@.len() != "zeropage,Y"@.len());
            assert("absolute"@ != "zeropage,Y"@);
            reveal_strlit("relative");
            assert("absolute"@[0] != "relative"@[0]);
            assert("absolute"@ != "relative"@);
        },
        Addr::AbsX => {
            reveal_strlit("absolute,X");
            reveal_strlit("accumulator");
            assert("absolute,X"@.len() != "accumulator"@.len());
            assert("absolute,X"@ != "accumulator"@);
            reveal_strlit("implied");
            assert("absolute,X"@.len() != "implied"@.len());
            assert("absolute,X"@ != "implied"@);
            reveal_strlit("immidiate");
            assert("absolute,X"@.len() != "immidiate"@.len());
            assert("absolute,X"@ != "immidiate"@);
            reveal_strlit("zeropage");
            assert("absolute,X"@.len() != "zeropage"@.len());
            assert("absolute,X"@ != "zeropage"@);
            reveal_strlit("zeropage,X");
            assert("absolute,X"@[0] != "zeropage,X"@[0]);
            assert("absolute,X"@ != "zeropage,X"@);
            reveal_strlit("zeropage,Y");
            assert("absolute,X"@[0] != "zeropage,Y"@[0]);
            assert("absolute,X"@ != "zeropage,Y"@);
            reveal_strlit("relative");
            assert("absolute,X"@.len() != "relative"@.len());
            assert("absolute,X"@ != "relative"@);
            reveal_strlit("absolute");
            assert("absolute,X"@.len() != "absolute"@.len());
            assert("absolute,X"@ != "absolute"@);
        },
        Addr::AbsY => {
            reveal_strlit("absolute,Y");
            reveal_strlit("accumulator");
            assert("absolute,Y"@.len() != "accumulator"@.len());
            assert("absolute,Y"@ != "accumulator"@);
            reveal_strlit("implied");
            assert("absolute,Y"@.len() != "implied"@.len());
            assert("absolute,Y"@ != "implied"@);
            reveal_strlit("immidiate");
            assert("absolute,Y"@.len() != "immidiate"@.len());
            assert("absolute,Y"@ != "immidiate"@);
            reveal_strlit("zeropage");
            assert("absolute,Y"@.len() != "zeropage"@.len());
            assert("absolute,Y"@ != "zeropage"@);
            reveal_strlit("zeropage,X");
            assert("absolute,Y"@[0] != "zeropage,X"@[0]);
            assert("absolute,Y"@ != "zeropage,X"@);
            reveal_strlit("zeropage,Y");
            assert("absolute,Y"@[0] != "zeropage,Y"@[0]);
            assert("absolute,Y"@ != "zeropage,Y"@);
            reveal_strlit("relative");
            assert("absolute,Y"@.len() != "relative"@.len());
            assert("absolute,Y"@ != "relative"@);
            reveal_strlit("absolute");
            assert("absolute,Y"@.len() != "absolute"@.len());
            assert("absolute,Y"@ != "absolute"@);
            reveal_strlit("absolute,X");
            assert("absolute,Y"@[9] != "absolute,X"@[9]);
            assert("absolute,Y"@ != "absolute,X"@);
        },
        Addr::Ind => {
            reveal_strlit("indirect");
            reveal_strlit("accumulator");
            assert("indirect"@.len() != "accumulator"@.len());
            assert("indirect"@ != "accumulator"@);
            reveal_strlit("implied");
            assert("indirect"@.len() != "implied"@.len());
            assert("indirect"@ != "implied"@);
            reveal_strlit("immidiate");
            assert("indirect"@.len() != "immidiate"@.len());
            assert("indirect"@ != "immidiate"@);
            reveal_strlit("zeropage");
            assert("indirect"@[0] != "zeropage"@[0]);
            assert("indirect"@ != "zeropage"@);
            reveal_strlit("zeropage,X");
            assert("indirect"@.len() != "zeropage,X"@.len());
            assert("indirect"@ != "zeropage,X"@);
            reveal_strlit("zeropage,Y");
            assert("indirect"@.len() != "zeropage,Y"@.len());
            assert("indirect"@ != "zeropage,Y"@);
            reveal_strlit("relative");
            assert("indirect"@[0] != "relative"@[0]);
            assert("indirect"@ != "relative"@);
            reveal_strlit("absolute");
            assert("indirect"@[0] != "absolute"@[0]);
            assert("indirect"@ != "absolute"@);
            reveal_strlit("absolute,X");
            assert("indirect"@.len() != "absolute,X"@.len());
            assert("indirect"@ != "absolute,X"@);
            reveal_strlit("absolute,Y");
            assert("indirect"@.len() != "absolute,Y"@.len());
            assert("indirect"@ != "absolute,Y"@);
        },
        Addr::IndX => {
            reveal_strlit("(indirect,X)");
            reveal_strlit("accumulator");
            assert("(indirect,X)"@.len() != "accumulator"@.len());
            assert("(indirect,X)"@ != "accumulator"@);
            reveal_strlit("implied");
            assert("(indirect,X)"@.len() != "implied"@.len());
            assert("(indirect,X)"@ != "implied"@);
            reveal_strlit("immidiate");
            assert("(indirect,X)"@.len() != "immidiate"@.len());
            assert("(indirect,X)"@ != "immidiate"@);
            reveal_strlit("zeropage");
            assert("(indirect,X)"@.len() != "zeropage"@.len());
            assert("(indirect,X)"@ != "zeropage"@);
            reveal_strlit("zeropage,X");
            assert("(indirect,X)"@.len() != "zeropage,X"@.len());
            assert("(indirect,X)"@ != "zeropage,X"@);
            reveal_strlit("zeropage,Y");
            assert("(indirect,X)"@.len() != "zeropage,Y"@.len());
            assert("(indirect,X)"@ != "zeropage,Y"@);
            reveal_strlit("relative");
            assert("(indirect,X)"@.len() != "relative"@.len());
            assert("(indirect,X)"@ != "relative"@);
            reveal_strlit("absolute");
            assert("(indirect,X)"@.len() != "absolute"@.len());
            assert("(indirect,X)"@ != "absolute"@);
            reveal_strlit("absolute,X");
            assert("(indirect,X)"@.len() != "absolute,X"@.len());
            assert("(indirect,X)"@ != "absolute,X"@);
            reveal_strlit("absolute,Y");
            assert("(indirect,X)"@.len() != "absolute,Y"@.len());
            assert("(indirect,X)"@ != "absolute,Y"@);
            reveal_strlit("indirect");
            assert("(indirect,X)"@.len() != "indirect"@.len());
            assert("(indirect,X)"@ != "indirect"@);
        },
        Addr::IndY => {
            reveal_strlit("(indirect),Y");
            reveal_strlit("accumulator");
            assert("(indirect),Y"@.len() != "accumulator"@.len());
            assert("(indirect),Y"@ != "accumulator"@);
            reveal_strlit("implied");
            assert("(indirect),Y"@.len() != "implied"@.len());
            assert("(indirect),Y"@ != "implied"@);
            reveal_strlit("immidiate");
            assert("(indirect),Y"@.len() != "immidiate"@.len());
            assert("(indirect),Y"@ != "immidiate"@);
            reveal_strlit("zeropage");
            assert("(indirect),Y"@.len() != "zeropage"@.len());
            assert("(indirect),Y"@ != "zeropage"@);
            reveal_strlit("zeropage,X");
            assert("(indirect),Y"@.len() != "zeropage,X"@.len());
            assert("(indirect),Y"@ != "zeropage,X"@);
            reveal_strlit("zeropage,Y");
            assert("(indirect),Y"@.len() != "zeropage,Y"@.len());
            assert("(indirect),Y"@ != "zeropage,Y"@);
            reveal_strlit("relative");
            assert("(indirect),Y"@.len() != "relative"@.len());
            assert("(indirect),Y"@ != "relative"@);
            reveal_strlit("absolute");
            assert("(indirect),Y"@.len() != "absolute"@.len());
            assert("(indirect),Y"@ != "absolute"@);
            reveal_strlit("absolute,X");
            assert("(indirect),Y"@.len() != "absolute,X"@.len());
            assert("(indirect),Y"@ != "absolute,X"@);
            reveal_strlit("absolute,Y");
            assert("(indirect),Y"@.len() != "absolute,Y"@.len());
            assert("(indirect),Y"@ != "absolute,Y"@);
            reveal_strlit("indirect");
            assert("(indirect),Y"@.len() != "indirect"@.len());
            assert("(indirect),Y"@ != "indirect"@);
            reveal_strlit("(indirect,X)");
            assert("(indirect),Y"@[9] != "(indirect,X)"@[9]);
            assert("(indirect),Y"@ != "(indirect,X)"@);
        },
    }
}

/// Whether two strings hold the same characters.
pub fn str_eq(a: &str, b: &str) -> (r: bool)
    ensures
        r == (a@ == b@),
{
    let n = a.unicode_len();
    if n != b.unicode_len() {
        return false;
    }
    let mut i: usize = 0;
    while i < n
        invariant
            n == a@.len(),
            n == b@.len(),
            i <= n,
            forall|j: int| 0 <= j < i ==> a@[j] == b@[j],
        decreases n - i,
    {
        if a.get_char(i) != b.get_char(i) {
            return false;
        }
        i += 1;
    }
    assert(a@ =~= b@);
    true
}

/// The addressing mode named `s`, or the message for a name that is none of them.
pub fn parse_addr(s: &str) -> (r: Result<Addr, String>)
    ensures
        match r {
            Ok(a) => addr_from_name(s@) == Some(a) && addr_name(a) == s@,
            Err(e) => addr_from_name(s@) is None && e@ == "Unknown addressing mode: "@ + s@,
        },
{
    if str_eq(s, "accumulator") {
        Ok(Addr::Acc)
    } else if str_eq(s, "implied") {
        Ok(Addr::Imp)
    } else if str_eq(s, "immidiate") {
        Ok(Addr::Imm)
    } else if str_eq(s, "zeropage") {
        Ok(Addr::Zero)
    } else if str_eq(s, "zeropage,X") {
        Ok(Addr::ZeroX)
    } else if str_eq(s, "zeropage,Y") {
        Ok(Addr::ZeroY)
    } else if str_eq(s, "relative") {
        Ok(Addr::Rel)
    } else if str_eq(s, "absolute") {
        Ok(Addr::Abs)
    } else if str_eq(s, "absolute,X") {
        Ok(Addr::AbsX)
    } else if str_eq(s, "absolute,Y") {
        Ok(Addr::AbsY)
    } else if str_eq(s, "indirect") {
        Ok(Addr::Ind)
    } else if str_eq(s, "(indirect,X)") {
        Ok(Addr::IndX)
    } else if str_eq(s, "(indirect),Y") {
        Ok(Addr::IndY)
    } else {
        let mut e = String::from_str("Unknown addressing mode: ");
        e.append(s);
        Err(e)
    }
}

impl core::str::FromStr for Addr {
    type Err = String;

    fn from_str(s: &str) -> (r: Result<Self, Self::Err>)
        ensures
            match r {
                Ok(a) => addr_from_name(s@) == Some(a) && addr_name(a) == s@,
                Err(e) => addr_from_name(s@) is None && e@ == "Unknown addressing mode: "@ + s@,
            },
    {
        parse_addr(s)
    }
}

/// An entry of the instruction table, with its strings as character sequences.
pub struct InstView {
    pub name: Seq<char>,
    pub desc: Seq<char>,
    pub mnem: Seq<char>,
    pub opcode: u8,
    pub addr: Addr,
    pub len: usize,
    pub cycles: usize,
    pub state: Seq<Seq<char>>,
}

impl View for Inst {
    type V = InstView;

    open spec fn view(&self) -> InstView {
        InstView {
            name: self.name@,
            desc: self.desc@,
            mnem: self.mnem@,
            opcode: self.opcode,
            addr: self.addr,
            len: self.len,
            cycles: self.cycles,
            state: self.state@.map_values(|s: String| s@),
        }
    }
}

/// One entry of the instruction table.
#[derive(Clone, Debug)]
pub struct Inst {
    /// Mnemonic, upper case (e.g. `ADC`).
    pub name: String,
    /// What the instruction does, in words.
    pub desc: String,
    /// Assembler form of this entry (e.g. `ADC #oper`).
    pub mnem: String,
    pub opcode: u8,
    pub addr: Addr,
    /// Length of the encoded instruction in bytes.
    pub len: usize,
    /// Base cycle count.
    pub cycles: usize,
    /// How the instruction affects each status flag.
    pub state: Vec<String>,
}

/// The upper-case form of `s`, as `str::to_uppercase` computes it under the
/// Unicode case mapping.
pub uninterp spec fn uppercase(s: Seq<char>) -> Seq<char>;

/// Calls `str::to_uppercase`. Trusted: the result is named `uppercase` of the
/// argument's characters; nothing more about the Unicode mapping is stated.
#[verifier::external_body]
fn to_uppercase(s: &str) -> (r: String)
    ensures
        r@ == uppercase(s@),
{
    s.to_uppercase()
}

/// The lower-case form of `s`, as `str::to_lowercase` computes it under the
/// Unicode case mapping.
pub uninterp spec fn lowercase(s: Seq<char>) -> Seq<char>;

/// Calls `str::to_lowercase`. Trusted: the result is named `lowercase` of the
/// argument's characters; nothing more about the Unicode mapping is stated.
#[verifier::external_body]
fn to_lowercase(s: &str) -> (r: String)
    ensures
        r@ == lowercase(s@),
{
    s.to_lowercase()
}

/// The name that code generated for an entry goes by: the mnemonic in lower
/// case, an underscore, and the opcode in two lower-case hexadecimal digits
/// (e.g. `adc_69`).
pub fn funcname(inst: &Inst) -> (r: String)
    ensures
        r@ == lowercase(inst.name@) + "_"@ + hex2(inst.opcode),
{
    let mut r = to_lowercase(inst.name.as_str());
    r.append("_");
    push_hex2(&mut r, inst.opcode);
    r
}

/// Whether `inst` is an entry for the instruction whose name is `upper`.
pub open spec fn named(upper: Seq<char>) -> spec_fn(Inst) -> bool {
    |inst: Inst| inst.name@ == upper
}

/// The entries of `insts` for the instruction called `name` in any case
/// (compared after upper-casing `name`), in table order.
pub fn load_by_name(insts: Vec<Inst>, name: &str) -> (r: Vec<Inst>)
    ensures
        r@ == insts@.filter(named(uppercase(name@))),
{
    let name = to_uppercase(name);
    let n = insts.len();
    let ghost all = insts@;
    let ghost pred = named(name@);
    let mut rest = insts;
    let mut out: Vec<Inst> = Vec::new();
    let mut i: usize = 0;
    while rest.len() > 0
        invariant
            rest@ == all.skip(i as int),
            i <= all.len(),
            all.len() == n,
            out@ == all.take(i as int).filter(pred),
            pred == named(name@),
        decreases rest.len(),
    {
        let inst = rest.remove(0);
        assert(all.take(i + 1).drop_last() =~= all.take(i as int));
        assert(all.take(i + 1).last() == inst);
        reveal_with_fuel(Seq::filter, 1);
        if str_eq(inst.name.as_str(), name.as_str()) {
            out.push(inst);
        }
        assert(rest@ =~= all.skip(i + 1));
        i += 1;
    }
    assert(all.take(i as int) =~= all);
    out
}

} // verus!
