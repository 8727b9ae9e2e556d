//! The structured values that a configuration command carries: a flat list of
//! named fields, each a scalar. Drivers parse their configuration from it and
//! render their configuration into it.

use vstd::prelude::*;
use vstd::string::StringExecFns;

verus! {

/// A number as a configuration command gives it.
#[derive(Clone, Copy, Debug, PartialEq, Eq, Structural)]
pub struct NumberValue {
    /// The number, where it is a non-negative integer that fits in 64 bits.
    pub unsigned: Option<u64>,
    /// The number in millionths, rounded to the nearest that fits.
    pub micros: i64,
}

/// The number that stands for the unsigned integer `n`.
pub open spec fn unsigned_number(n: u64) -> NumberValue {
    NumberValue {
        unsigned: Some(n),
        micros: if n * 1_000_000 <= i64::MAX {
            (n * 1_000_000) as i64
        } else {
            i64::MAX
        },
    }
}

/// The number that stands for `micros` millionths.
pub open spec fn micros_number(micros: i64) -> NumberValue {
    NumberValue {
        unsigned: if micros >= 0 && micros % 1_000_000 == 0 {
            Some((micros / 1_000_000) as u64)
        } else {
            None
        },
        micros,
    }
}

/// The number that stands for the unsigned integer `n`.
pub fn number_from_unsigned(n: u64) -> (number: NumberValue)
    ensures
        number == unsigned_number(n),
{
    NumberValue {
        unsigned: Some(n),
        micros: if n <= 9_223_372_036_854 {
            (n * 1_000_000) as i64
        } else {
            i64::MAX
        },
    }
}

/// The number that stands for `micros` millionths.
pub fn number_from_micros(micros: i64) -> (number: NumberValue)
    ensures
        number == micros_number(micros),
{
    NumberValue {
        unsigned: if micros >= 0 && micros % 1_000_000 == 0 {
            Some((micros / 1_000_000) as u64)
        } else {
            None
        },
        micros,
    }
}

/// The value of one field.
#[derive(Clone, Debug)]
pub enum FieldValue {
    /// An absent field, or an explicit null.
    Null,
    Bool(bool),
    Number(NumberValue),
    Text(String),
    /// A list of numbers, each in millionths.
    Numbers(Vec<i64>),
    /// Any other list, or a nested object: no driver reads one.
    Composite,
}

/// What a field's value is, with text as its characters.
pub enum FieldView {
    Null,
    Bool(bool),
    Number(NumberValue),
    Text(Seq<char>),
    Numbers(Seq<i64>),
    Composite,
}

impl View for FieldValue {
    type V = FieldView;

    open spec fn view(&self) -> FieldView {
        match *self {
            FieldValue::Null => FieldView::Null,
            FieldValue::Bool(b) => FieldView::Bool(b),
            FieldValue::Number(number) => FieldView::Number(number),
            FieldValue::Text(text) => FieldView::Text(text@),
            FieldValue::Numbers(numbers) => FieldView::Numbers(numbers@),
            FieldValue::Composite => FieldView::Composite,
        }
    }
}

/// One named field.
#[derive(Clone, Debug)]
pub struct Field {
    pub name: String,
    pub value: FieldValue,
}

/// The fields of a configuration command or of a configuration report, in the
/// order in which they were given.
#[derive(Clone, Debug)]
pub struct ConfigurationValues {
    pub fields: Vec<Field>,
}

/// The value of the first field called `name`; `Null` where there is none.
pub open spec fn lookup(fields: Seq<Field>, name: Seq<char>) -> FieldView
    decreases fields.len(),
{
    if fields.len() == 0 {
        FieldView::Null
    } else if fields[0].name@ == name {
        fields[0].value@
    } else {
        lookup(fields.subrange(1, fields.len() as int), name)
    }
}

/// Whether some field is called `name`.
pub open spec fn has_field(fields: Seq<Field>, name: Seq<char>) -> bool {
    exists|i: int| 0 <= i < fields.len() && (#[trigger] fields[i]).name@ == name
}

/// `lookup` skips the fields in front of the first one called `name`.
pub proof fn lemma_lookup_skips(fields: Seq<Field>, name: Seq<char>, k: int)
    requires
        0 <= k <= fields.len(),
        forall|i: int| 0 <= i < k ==> (#[trigger] fields[i]).name@ != name,
    ensures
        lookup(fields, name) == lookup(fields.subrange(k, fields.len() as int), name),
    decreases k,
{
    if k == 0 {
        assert(fields.subrange(0, fields.len() as int) =~= fields);
    } else {
        let rest = fields.subrange(1, fields.len() as int);
        assert forall|i: int| 0 <= i < k - 1 implies (#[trigger] rest[i]).name@ != name by {
            assert(rest[i] == fields[i + 1]);
        }
        lemma_lookup_skips(rest, name, k - 1);
        assert(rest.subrange(k - 1, rest.len() as int) =~= fields.subrange(
            k,
            fields.len() as int,
        ));
    }
}

/// A field that was appended last is found unless an earlier one has its name.
pub proof fn lemma_lookup_push(fields: Seq<Field>, field: Field, name: Seq<char>)
    ensures
        lookup(fields.push(field), name) == if has_field(fields, name) {
            lookup(fields, name)
        } else if field.name@ == name {
            field.value@
        } else {
            FieldView::Null
        },
    decreases fields.len(),
{
    let pushed = fields.push(field);
    if fields.len() == 0 {
        assert(pushed.subrange(1, 1) =~= Seq::<Field>::empty());
        assert(pushed[0] == field);
        assert(lookup(pushed.subrange(1, 1), name) == FieldView::Null);
        assert(!has_field(fields, name));
    } else if fields[0].name@ == name {
        assert(pushed[0] == fields[0]);
        assert(has_field(fields, name));
    } else {
        let rest = fields.subrange(1, fields.len() as int);
        lemma_lookup_push(rest, field, name);
        assert(pushed.subrange(1, pushed.len() as int) =~= rest.push(field));
        assert(pushed[0] == fields[0]);
        if has_field(fields, name) {
            let i = choose|i: int| 0 <= i < fields.len() && (#[trigger] fields[i]).name@ == name;
            assert(rest[i - 1] == fields[i]);
        }
        if has_field(rest, name) {
            let i = choose|i: int| 0 <= i < rest.len() && (#[trigger] rest[i]).name@ == name;
            assert(fields[i + 1] == rest[i]);
        }
    }
}

impl ConfigurationValues {
    /// No fields.
    pub fn new() -> (values: Self)
        ensures
            values.fields@.len() == 0,
    {
        ConfigurationValues { fields: Vec::new() }
    }

    /// Appends a field. A field of the same name that is there already stays
    /// the one that is found.
    pub fn set(&mut self, name: &str, value: FieldValue)
        ensures
            final(self).fields@.len() == old(self).fields@.len() + 1,
            forall|key: Seq<char>|
                has_field(final(self).fields@, key) == (has_field(old(self).fields@, key) || key
                    == name@),
            forall|key: Seq<char>| #[trigger]
                lookup(final(self).fields@, key) == if has_field(old(self).fields@, key) {
                    lookup(old(self).fields@, key)
                } else if key == name@ {
                    value@
                } else {
                    FieldView::Null
                },
    {
        let field = Field { name: String::from_str(name), value };
        proof {
            let before = self.fields@;
            let after = before.push(field);
            assert forall|key: Seq<char>|
                has_field(after, key) == (has_field(before, key) || key == name@) by {
                if has_field(before, key) {
                    let i = choose|i: int|
                        0 <= i < before.len() && (#[trigger] before[i]).name@ == key;
                    assert(after[i] == before[i]);
                }
                if key == name@ {
                    assert(after[before.len() as int].name@ == key);
                }
                if has_field(after, key) {
                    let i = choose|i: int| 0 <= i < after.len() && (#[trigger] after[i]).name@ == key;
                    if i < before.len() {
                        assert(before[i] == after[i]);
                    }
                }
            }
            assert forall|key: Seq<char>| #[trigger]
                lookup(after, key) == if has_field(before, key) {
                    lookup(before, key)
                } else if key == name@ {
                    value@
                } else {
                    FieldView::Null
                } by {
                lemma_lookup_push(before, field, key);
            }
        }
        self.fields.push(field);
    }

    /// The value of the first field called `name`, if there is one.
    pub fn get(&self, name: &str) -> (found: Option<&FieldValue>)
        ensures
            found is Some == has_field(self.fields@, name@),
            found matches Some(value) ==> value@ == lookup(self.fields@, name@),
            found is None ==> lookup(self.fields@, name@) == FieldView::Null,
    {
        let wanted: String = String::from_str(name);
        let n: usize = self.fields.len();
        let mut i: usize = 0;
        while i < n
            invariant
                i <= n,
                n == self.fields@.len(),
                wanted@ == name@,
                forall|j: int| 0 <= j < i ==> (#[trigger] self.fields@[j]).name@ != name@,
            decreases n - i,
        {
            if self.fields[i].name == wanted {
                proof {
                    lemma_lookup_skips(self.fields@, name@, i as int);
                }
                return Some(&self.fields[i].value);
            }
            i += 1;
        }
        proof {
            lemma_lookup_skips(self.fields@, name@, n as int);
        }
        None
    }
}

} // verus!
