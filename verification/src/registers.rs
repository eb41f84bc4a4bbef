//! The register file's naming scheme: 32 general registers followed by the two
//! accumulators `$hi` and `$lo`, each with one canonical name.

use vstd::prelude::*;

use crate::numbers::{decimal_string, decimal_text};

verus! {

/// Number of addressable registers.
pub const REGISTER_COUNT: u32 = 34;

/// A named register with its initial value.
pub struct Register {
    pub name: String,
    pub value: u32,
}

impl Register {
    /// A register called `name`, holding zero.  Register names start with `$`.
    pub fn new(name: String) -> (r: Register)
        requires
            name@.len() > 0,
            name@[0] == '$',
        ensures
            r.name == name,
            r.value == 0,
    {
        Register { name, value: 0 }
    }
}

/// The canonical name of register `addr`, if `addr` is a register.
pub open spec fn register_name(addr: u32) -> Option<Seq<char>> {
    match addr {
        0 => Some("$zero"@),
        1 => Some("$at"@),
        2 => Some("$v0"@),
        3 => Some("$v1"@),
        4 => Some("$a0"@),
        5 => Some("$a1"@),
        6 => Some("$a2"@),
        7 => Some("$a3"@),
        8 => Some("$t0"@),
        9 => Some("$t1"@),
        10 => Some("$t2"@),
        11 => Some("$t3"@),
        12 => Some("$t4"@),
        13 => Some("$t5"@),
        14 => Some("$t6"@),
        15 => Some("$t7"@),
        16 => Some("$s0"@),
        17 => Some("$s1"@),
        18 => Some("$s2"@),
        19 => Some("$s3"@),
        20 => Some("$s4"@),
        21 => Some("$s5"@),
        22 => Some("$s6"@),
        23 => Some("$s7"@),
        24 => Some("$t8"@),
        25 => Some("$t9"@),
        26 => Some("$k0"@),
        27 => Some("$k1"@),
        28 => Some("$gp"@),
        29 => Some("$sp"@),
        30 => Some("$fp"@),
        31 => Some("$ra"@),
        32 => Some("$hi"@),
        33 => Some("$lo"@),
        _ => None,
    }
}

/// The index of the register called `name`, if `name` is a canonical register name.
pub open spec fn register_index(name: Seq<char>) -> Option<u32> {
    if exists|addr: u32| register_name(addr) == Some(name) {
        Some(choose|addr: u32| register_name(addr) == Some(name))
    } else {
        None
    }
}

/// Reveals the characters of every canonical register name.
pub proof fn lemma_register_names()
    ensures
        "$zero"@ =~= seq!['$', 'z', 'e', 'r', 'o'],
        "$at"@ =~= seq!['$', 'a', 't'],
        "$v0"@ =~= seq!['$', 'v', '0'],
        "$v1"@ =~= seq!['$', 'v', '1'],
        "$a0"@ =~= seq!['$', 'a', '0'],
        "$a1"@ =~= seq!['$', 'a', '1'],
        "$a2"@ =~= seq!['$', 'a', '2'],
        "$a3"@ =~= seq!['$', 'a', '3'],
        "$t0"@ =~= seq!['$', 't', '0'],
        "$t1"@ =~= seq!['$', 't', '1'],
        "$t2"@ =~= seq!['$', 't', '2'],
        "$t3"@ =~= seq!['$', 't', '3'],
        "$t4"@ =~= seq!['$', 't', '4'],
        "$t5"@ =~= seq!['$', 't', '5'],
        "$t6"@ =~= seq!['$', 't', '6'],
        "$t7"@ =~= seq!['$', 't', '7'],
        "$s0"@ =~= seq!['$', 's', '0'],
        "$s1"@ =~= seq!['$', 's', '1'],
        "$s2"@ =~= seq!['$', 's', '2'],
        "$s3"@ =~= seq!['$', 's', '3'],
        "$s4"@ =~= seq!['$', 's', '4'],
        "$s5"@ =~= seq!['$', 's', '5'],
        "$s6"@ =~= seq!['$', 's', '6'],
        "$s7"@ =~= seq!['$', 's', '7'],
        "$t8"@ =~= seq!['$', 't', '8'],
        "$t9"@ =~= seq!['$', 't', '9'],
        "$k0"@ =~= seq!['$', 'k', '0'],
        "$k1"@ =~= seq!['$', 'k', '1'],
        "$gp"@ =~= seq!['$', 'g', 'p'],
        "$sp"@ =~= seq!['$', 's', 'p'],
        "$fp"@ =~= seq!['$', 'f', 'p'],
        "$ra"@ =~= seq!['$', 'r', 'a'],
        "$hi"@ =~= seq!['$', 'h', 'i'],
        "$lo"@ =~= seq!['$', 'l', 'o'],
{
    reveal_strlit("$zero");
    reveal_strlit("$at");
    reveal_strlit("$v0");
    reveal_strlit("$v1");
    reveal_strlit("$a0");
    reveal_strlit("$a1");
    reveal_strlit("$a2");
    reveal_strlit("$a3");
    reveal_strlit("$t0");
    reveal_strlit("$t1");
    reveal_strlit("$t2");
    reveal_strlit("$t3");
    reveal_strlit("$t4");
    reveal_strlit("$t5");
    reveal_strlit("$t6");
    reveal_strlit("$t7");
    reveal_strlit("$s0");
    reveal_strlit("$s1");
    reveal_strlit("$s2");
    reveal_strlit("$s3");
    reveal_strlit("$s4");
    reveal_strlit("$s5");
    reveal_strlit("$s6");
    reveal_strlit("$s7");
    reveal_strlit("$t8");
    reveal_strlit("$t9");
    reveal_strlit("$k0");
    reveal_strlit("$k1");
    reveal_strlit("$gp");
    reveal_strlit("$sp");
    reveal_strlit("$fp");
    reveal_strlit("$ra");
    reveal_strlit("$hi");
    reveal_strlit("$lo");
}

/// No two registers share a name.
pub proof fn lemma_register_names_distinct(a: u32, b: u32)
    requires
        register_name(a) is Some,
        register_name(a) == register_name(b),
    ensures
        a == b,
{
    lemma_register_names();
}

/// Register names and indices determine each other: looking up the index of the
/// name of register `addr` gives `addr` back.
pub proof fn lemma_index_of_name(addr: u32)
    requires
        addr < REGISTER_COUNT,
    ensures
        register_name(addr) is Some,
        register_index(register_name(addr).unwrap()) == Some(addr),
{
    let name = register_name(addr).unwrap();
    let found = choose|a: u32| register_name(a) == Some(name);
    lemma_register_names_distinct(addr, found);
}

/// Looking up the name of the index of a canonical register name gives the name
/// back, and the index is that of a register.
pub proof fn lemma_name_of_index(name: Seq<char>)
    requires
        register_index(name) is Some,
    ensures
        register_index(name).unwrap() < REGISTER_COUNT,
        register_name(register_index(name).unwrap()) == Some(name),
{
}

/// A name has no index exactly when no register carries it.
pub proof fn lemma_unknown_name(name: Seq<char>)
    ensures
        register_index(name) is None <==> (forall|addr: u32| register_name(addr) != Some(name)),
{
}

/// The canonical name of register `addr` as text.
pub fn canonical_name(addr: u32) -> (r: Option<&'static str>)
    ensures
        match r {
            Some(name) => register_name(addr) == Some(name@),
            None => register_name(addr) is None,
        },
{
    match addr {
        0 => Some("$zero"),
        1 => Some("$at"),
        2 => Some("$v0"),
        3 => Some("$v1"),
        4 => Some("$a0"),
        5 => Some("$a1"),
        6 => Some("$a2"),
        7 => Some("$a3"),
        8 => Some("$t0"),
        9 => Some("$t1"),
        10 => Some("$t2"),
        11 => Some("$t3"),
        12 => Some("$t4"),
        13 => Some("$t5"),
        14 => Some("$t6"),
        15 => Some("$t7"),
        16 => Some("$s0"),
        17 => Some("$s1"),
        18 => Some("$s2"),
        19 => Some("$s3"),
        20 => Some("$s4"),
        21 => Some("$s5"),
        22 => Some("$s6"),
        23 => Some("$s7"),
        24 => Some("$t8"),
        25 => Some("$t9"),
        26 => Some("$k0"),
        27 => Some("$k1"),
        28 => Some("$gp"),
        29 => Some("$sp"),
        30 => Some("$fp"),
        31 => Some("$ra"),
        32 => Some("$hi"),
        33 => Some("$lo"),
        _ => None,
    }
}

/// The index of the register called `reg`, or `None` if `reg` is not a canonical
/// register name.
pub fn register_to_addr(reg: String) -> (r: Option<u32>)
    ensures
        r == register_index(reg@),
{
    let mut addr: u32 = 0;
    while addr < REGISTER_COUNT
        invariant
            addr <= REGISTER_COUNT,
            forall|a: u32| a < addr ==> register_name(a) != Some(reg@),
        decreases REGISTER_COUNT - addr,
    {
        let candidate = canonical_name(addr);
        if candidate.is_some() && same_text(reg.as_str(), candidate.unwrap()) {
            proof {
                lemma_index_of_name(addr);
            }
            return Some(addr);
        }
        addr += 1;
    }
    None
}

/// The register with index `addr`, under its canonical name and holding zero, or
/// `None` if `addr` is not a register index.
pub fn addr_to_register(addr: u32) -> (r: Option<Register>)
    ensures
        match r {
            Some(register) => register_name(addr) == Some(register.name@) && register.value == 0,
            None => register_name(addr) is None,
        },
        r is Some <==> addr < REGISTER_COUNT,
{
    match canonical_name(addr) {
        Some(name) => {
            proof {
                lemma_register_names();
            }
            Some(Register::new(name.to_owned()))
        },
        None => None,
    }
}

/// A register file, for showing each register under its name.
pub struct PrettyFmtRegister<'a>(pub &'a [u32; 34]);

/// How register `addr` is shown when it holds `value`: its name, a colon and a
/// space, and the value in decimal.
pub open spec fn register_line(addr: u32, value: u32) -> Seq<char>
    recommends
        addr < REGISTER_COUNT,
{
    register_name(addr).unwrap() + ": "@ + decimal_text(value as nat)
}

impl<'a> PrettyFmtRegister<'a> {
    /// One line for each register, in index order: `name: value`.
    pub fn lines(&self) -> (r: Vec<String>)
        ensures
            r@.len() == REGISTER_COUNT,
            forall|addr: u32|
                addr < REGISTER_COUNT ==> (#[trigger] r@[addr as int])@ == register_line(
                    addr,
                    self.0@[addr as int],
                ),
    {
        let mut lines: Vec<String> = Vec::new();
        let mut addr: u32 = 0;
        while addr < REGISTER_COUNT
            invariant
                addr <= REGISTER_COUNT,
                lines@.len() == addr,
                forall|a: u32|
                    a < addr ==> (#[trigger] lines@[a as int])@ == register_line(
                        a,
                        self.0@[a as int],
                    ),
            decreases REGISTER_COUNT - addr,
        {
            let name = canonical_name(addr).unwrap();
            let value = self.0[addr as usize];
            let line = name.to_owned().concat(": ").concat(decimal_string(value as usize).as_str());
            lines.push(line);
            addr += 1;
        }
        lines
    }
}

/// Whether two strings hold the same characters.
pub fn same_text(a: &str, b: &str) -> (r: bool)
    ensures
        r == (a@ == b@),
{
    let n = a.unicode_len();
    if n != b.unicode_len() {
        return false;
    }
    let mut i: usize = 0;
    while i < n
        invariant
            n == a@.len(),
            n == b@.len(),
            i <= n,
            forall|k: int| 0 <= k < i ==> a@[k] == b@[k],
        decreases n - i,
    {
        if a.get_char(i) != b.get_char(i) {
            return false;
        }
        i += 1;
    }
    assert(a@ =~= b@);
    true
}

} // verus!
