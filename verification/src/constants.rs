//! The table of named constants.
//!
//! A constant is a name and the numeral that stands for it. The table keeps
//! its entries in the order in which the names were first defined; no name
//! occurs twice, and every name is a word of letters that is not reserved.

use vstd::prelude::*;
use vstd::string::*;
use crate::text::same_text;

verus! {

/// Whether `char::is_alphabetic` holds of a character.
pub uninterp spec fn alphabetic(c: char) -> bool;

/// `char::is_alphabetic`: whether Unicode counts the character as
/// alphabetic. The contract only gives the answer its name.
#[verifier::external_body]
fn is_alphabetic(c: char) -> (r: bool)
    ensures
        r == alphabetic(c),
{
    c.is_alphabetic()
}

/// The words that cannot name a constant.
pub open spec fn reserved(name: Seq<char>) -> bool {
    ||| name == seq!['e', 'x', 'p', 'o', 'r', 't']
    ||| name == seq!['s', 'i', 'n']
    ||| name == seq!['c', 'o', 's']
    ||| name == seq!['t', 'g']
    ||| name == seq!['c', 't', 'g']
    ||| name == seq!['h', 'e', 'l', 'p']
}

/// A name is made of letters only, at least one.
pub open spec fn letters(name: Seq<char>) -> bool {
    name.len() > 0 && forall|i: int| 0 <= i < name.len() ==> alphabetic(#[trigger] name[i])
}

/// What may name a constant: a word of letters that is not reserved.
pub open spec fn valid_name(name: Seq<char>) -> bool {
    letters(name) && !reserved(name)
}

/// The index of the entry for `name` among the first `upto` entries.
pub open spec fn position(table: Seq<(Seq<char>, Seq<char>)>, name: Seq<char>, upto: int) -> Option<
    int,
>
    decreases upto,
{
    if upto <= 0 {
        None
    } else if table[upto - 1].0 == name && position(table, name, upto - 1) is None {
        Some(upto - 1)
    } else {
        position(table, name, upto - 1)
    }
}

/// The numeral that stands for `name`, if the table has one.
pub open spec fn lookup(table: Seq<(Seq<char>, Seq<char>)>, name: Seq<char>) -> Option<Seq<char>> {
    match position(table, name, table.len() as int) {
        Some(i) => Some(table[i].1),
        None => None,
    }
}

/// The table after `name` has been given `value`: an entry for the name is
/// overwritten where it stands, a new name goes to the end.
pub open spec fn assigned(
    table: Seq<(Seq<char>, Seq<char>)>,
    name: Seq<char>,
    value: Seq<char>,
) -> Seq<(Seq<char>, Seq<char>)> {
    match position(table, name, table.len() as int) {
        Some(i) => table.update(i, (name, value)),
        None => table.push((name, value)),
    }
}

/// The names of a table, in its order.
pub open spec fn names_of(table: Seq<(Seq<char>, Seq<char>)>) -> Seq<Seq<char>> {
    Seq::new(table.len(), |i: int| table[i].0)
}

/// Every name is valid and none occurs twice.
pub open spec fn valid_table(table: Seq<(Seq<char>, Seq<char>)>) -> bool {
    &&& forall|i: int| 0 <= i < table.len() ==> valid_name(#[trigger] table[i].0)
    &&& forall|i: int, j: int|
        0 <= i < j < table.len() ==> #[trigger] table[i].0 != #[trigger] table[j].0
}

/// `position` finds the first entry with the name, and finds none only if
/// there is none.
pub proof fn position_is_first(table: Seq<(Seq<char>, Seq<char>)>, name: Seq<char>, upto: int)
    requires
        0 <= upto <= table.len(),
    ensures
        match position(table, name, upto) {
            Some(i) => 0 <= i < upto && table[i].0 == name && forall|j: int|
                0 <= j < i ==> (#[trigger] table[j]).0 != name,
            None => forall|j: int| 0 <= j < upto ==> (#[trigger] table[j]).0 != name,
        },
    decreases upto,
{
    if upto > 0 {
        position_is_first(table, name, upto - 1);
    }
}

/// Assignment keeps a valid table valid and never makes it shorter.
/// Afterwards the name stands for the value, and every other name stands for
/// what it stood for.
pub proof fn assignment_law(
    table: Seq<(Seq<char>, Seq<char>)>,
    name: Seq<char>,
    value: Seq<char>,
    other: Seq<char>,
)
    requires
        valid_table(table),
        valid_name(name),
    ensures
        valid_table(assigned(table, name, value)),
        assigned(table, name, value).len() >= table.len(),
        lookup(assigned(table, name, value), name) == Some(value),
        other != name ==> lookup(assigned(table, name, value), other) == lookup(table, other),
{
    let after = assigned(table, name, value);
    position_is_first(table, name, table.len() as int);
    position_is_first(after, name, after.len() as int);
    position_is_first(table, other, table.len() as int);
    position_is_first(after, other, after.len() as int);
    match position(table, name, table.len() as int) {
        Some(i) => {
            assert(forall|j: int| 0 <= j < after.len() && j != i ==> after[j] == table[j]);
            assert(after[i] == (name, value));
        },
        None => {
            assert(forall|j: int| 0 <= j < table.len() ==> after[j] == table[j]);
            assert(after[table.len() as int] == (name, value));
        },
    }
}

/// The constants of a session.
pub struct Constants {
    entries: Vec<(String, String)>,
}

impl View for Constants {
    type V = Seq<(Seq<char>, Seq<char>)>;

    closed spec fn view(&self) -> Seq<(Seq<char>, Seq<char>)> {
        self.entries.deep_view()
    }
}

/// Whether the word cannot name a constant because the calculator uses it.
pub fn is_reserved(name: &str) -> (r: bool)
    ensures
        r == reserved(name@),
{
    proof {
        reveal_strlit("export");
        reveal_strlit("sin");
        reveal_strlit("cos");
        reveal_strlit("tg");
        reveal_strlit("ctg");
        reveal_strlit("help");
        assert("export"@ =~= seq!['e', 'x', 'p', 'o', 'r', 't']);
        assert("sin"@ =~= seq!['s', 'i', 'n']);
        assert("cos"@ =~= seq!['c', 'o', 's']);
        assert("tg"@ =~= seq!['t', 'g']);
        assert("ctg"@ =~= seq!['c', 't', 'g']);
        assert("help"@ =~= seq!['h', 'e', 'l', 'p']);
    }
    same_text(name, "export") || same_text(name, "sin") || same_text(name, "cos") || same_text(
        name,
        "tg",
    ) || same_text(name, "ctg") || same_text(name, "help")
}

/// Whether the word may name a constant.
pub fn is_valid_name(name: &str) -> (r: bool)
    ensures
        r == valid_name(name@),
{
    let n = name.unicode_len();
    if n == 0 {
        return false;
    }
    let mut i: usize = 0;
    while i < n
        invariant
            i <= n,
            n == name@.len(),
            forall|j: int| 0 <= j < i ==> alphabetic(#[trigger] name@[j]),
        decreases n - i,
    {
        if !is_alphabetic(name.get_char(i)) {
            return false;
        }
        i = i + 1;
    }
    !is_reserved(name)
}

impl Constants {
    #[verifier::type_invariant]
    spec fn holds(&self) -> bool {
        valid_table(self.entries.deep_view())
    }

    /// A table without constants.
    pub fn new() -> (r: Constants)
        ensures
            r@ == Seq::<(Seq<char>, Seq<char>)>::empty(),
    {
        let r = Constants { entries: Vec::new() };
        assert(r.entries.deep_view() =~= Seq::<(Seq<char>, Seq<char>)>::empty());
        r
    }

    /// How many constants there are. Every table is valid.
    pub fn len(&self) -> (r: usize)
        ensures
            r == self@.len(),
            valid_table(self@),
    {
        proof {
            use_type_invariant(self);
        }
        self.entries.len()
    }

    /// The name of the constant at `index`, in the order of definition.
    pub fn name_at(&self, index: usize) -> (r: &str)
        requires
            index < self@.len(),
        ensures
            r@ == self@[index as int].0,
    {
        self.entries[index].0.as_str()
    }

    /// The names of the constants, in the order of definition.
    pub fn names(&self) -> (r: Vec<String>)
        ensures
            r.deep_view() == names_of(self@),
    {
        let mut names: Vec<String> = Vec::new();
        let mut i: usize = 0;
        while i < self.entries.len()
            invariant
                i <= self.entries.len(),
                names.len() == i,
                forall|j: int| 0 <= j < i ==> names[j]@ == self@[j].0,
            decreases self.entries.len() - i,
        {
            assert(self@[i as int].0 == self.entries[i as int].0@);
            names.push(self.entries[i].0.clone());
            i = i + 1;
        }
        assert(names.deep_view() =~= names_of(self@));
        names
    }

    fn find(&self, name: &str) -> (r: Option<usize>)
        ensures
            match r {
                Some(i) => position(self@, name@, self@.len() as int) == Some(i as int) && i
                    < self@.len(),
                None => position(self@, name@, self@.len() as int) is None,
            },
    {
        let mut i: usize = 0;
        while i < self.entries.len()
            invariant
                i <= self.entries.len(),
                position(self@, name@, i as int) is None,
            decreases self.entries.len() - i,
        {
            assert(self@[i as int].0 == self.entries[i as int].0@);
            if same_text(self.entries[i].0.as_str(), name) {
                proof {
                    position_is_first(self@, name@, self@.len() as int);
                    position_is_first(self@, name@, i as int);
                }
                return Some(i);
            }
            i = i + 1;
        }
        None
    }

    /// The numeral that stands for `name`.
    pub fn get(&self, name: &str) -> (r: Option<&String>)
        ensures
            match r {
                Some(value) => lookup(self@, name@) == Some(value@),
                None => lookup(self@, name@) is None,
            },
    {
        match self.find(name) {
            Some(i) => {
                assert(self@[i as int].1 == self.entries[i as int].1@);
                Some(&self.entries[i].1)
            },
            None => None,
        }
    }

    /// Gives `name` the numeral `value`, if the name is valid; says whether
    /// it was.
    pub fn define(&mut self, name: &str, value: String) -> (r: bool)
        ensures
            r == valid_name(name@),
            r ==> final(self)@ == assigned(old(self)@, name@, value@),
            !r ==> final(self)@ == old(self)@,
            valid_table(final(self)@),
    {
        proof {
            use_type_invariant(&*self);
        }
        if !is_valid_name(name) {
            return false;
        }
        proof {
            assignment_law(self@, name@, value@, name@);
        }
        let found = self.find(name);
        let mut taken = Constants::new();
        core::mem::swap(self, &mut taken);
        let Constants { mut entries } = taken;
        let ghost before = entries.deep_view();
        match found {
            Some(i) => {
                entries.set(i, (String::from_str(name), value));
                assert(entries.deep_view() =~= before.update(i as int, (name@, value@)));
            },
            None => {
                entries.push((String::from_str(name), value));
                assert(entries.deep_view() =~= before.push((name@, value@)));
            },
        }
        *self = Constants { entries };
        true
    }
}

} // verus!
