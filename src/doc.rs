use vstd::prelude::*;

verus! {

broadcast use vstd::std_specs::vec::group_vec_axioms;

/// The untyped configuration tree: one node of a parsed configuration document.
#[derive(Debug, PartialEq)]
pub enum Doc {
    Str(String),
    Integer(i64),
    /// A floating-point number, held as its IEEE-754 bit pattern.
    Float(u64),
    Boolean(bool),
    Array(Vec<Doc>),
    /// Entries in document order; a well-formed table never repeats a key.
    Table(Vec<(String, Doc)>),
    /// A date or time, held as its text.
    Datetime(String),
}

/// The variant tag of a [`Doc`] node.
#[derive(Clone, Copy, Debug, PartialEq, Eq, Structural)]
pub enum Kind {
    Str,
    Integer,
    Float,
    Boolean,
    Array,
    Table,
    Datetime,
}

/// The key of entry `i` of a table.
pub open spec fn key_at(t: Seq<(String, Doc)>, i: int) -> Seq<char> {
    t[i].0@
}

pub open spec fn has_key(t: Seq<(String, Doc)>, k: Seq<char>) -> bool {
    exists|i: int| 0 <= i < t.len() && #[trigger] key_at(t, i) == k
}

pub open spec fn unique_keys(t: Seq<(String, Doc)>) -> bool {
    forall|i: int, j: int|
        0 <= i < t.len() && 0 <= j < t.len() && i != j ==> #[trigger] key_at(t, i) != #[trigger] key_at(t, j)
}

/// The value stored under key `k`, if any.
pub open spec fn lookup(t: Seq<(String, Doc)>, k: Seq<char>) -> Option<Doc> {
    if has_key(t, k) {
        Some(t[choose|i: int| 0 <= i < t.len() && #[trigger] key_at(t, i) == k].1)
    } else {
        None
    }
}

pub proof fn lemma_lookup_at(t: Seq<(String, Doc)>, i: int)
    requires
        unique_keys(t),
        0 <= i < t.len(),
    ensures
        lookup(t, key_at(t, i)) == Some(t[i].1),
{
    let k = key_at(t, i);
    assert(has_key(t, k));
    let j = choose|j: int| 0 <= j < t.len() && #[trigger] key_at(t, j) == k;
    if j != i {
        assert(key_at(t, i) != key_at(t, j));
    }
}

/// A value found in a table whose entries are all well-formed is well-formed.
pub proof fn lemma_lookup_wf(t: Seq<(String, Doc)>, k: Seq<char>)
    requires
        forall|i: int| 0 <= i < t.len() ==> (#[trigger] t[i]).1.wf(),
        lookup(t, k) is Some,
    ensures
        lookup(t, k)->Some_0.wf(),
{
    let i = choose|i: int| 0 <= i < t.len() && #[trigger] key_at(t, i) == k;
    assert(t[i].1.wf());
}

impl Doc {
    pub open spec fn kind_of(self) -> Kind {
        match self {
            Doc::Str(_) => Kind::Str,
            Doc::Integer(_) => Kind::Integer,
            Doc::Float(_) => Kind::Float,
            Doc::Boolean(_) => Kind::Boolean,
            Doc::Array(_) => Kind::Array,
            Doc::Table(_) => Kind::Table,
            Doc::Datetime(_) => Kind::Datetime,
        }
    }

    /// Every table in the tree, at any depth, has unique keys.
    pub open spec fn wf(self) -> bool
        decreases self,
    {
        match self {
            Doc::Array(v) => forall|i: int| 0 <= i < v.len() ==> (#[trigger] v@[i]).wf(),
            Doc::Table(t) => unique_keys(t@) && forall|i: int|
                0 <= i < t.len() ==> (#[trigger] t@[i]).1.wf(),
            _ => true,
        }
    }

    pub fn kind(&self) -> (r: Kind)
        ensures
            r == self.kind_of(),
    {
        match self {
            Doc::Str(_) => Kind::Str,
            Doc::Integer(_) => Kind::Integer,
            Doc::Float(_) => Kind::Float,
            Doc::Boolean(_) => Kind::Boolean,
            Doc::Array(_) => Kind::Array,
            Doc::Table(_) => Kind::Table,
            Doc::Datetime(_) => Kind::Datetime,
        }
    }
}

/// The name under which a variant is reported.
pub open spec fn kind_name(k: Kind) -> Seq<char> {
    match k {
        Kind::Str => "String"@,
        Kind::Integer => "Integer"@,
        Kind::Float => "Float number"@,
        Kind::Boolean => "Boolean"@,
        Kind::Array => "Array"@,
        Kind::Table => "Table"@,
        Kind::Datetime => "Date/Time"@,
    }
}

impl Kind {
    /// The readable name of the variant.
    pub fn name(self) -> (r: &'static str)
        ensures
            r@ == kind_name(self),
    {
        match self {
            Kind::Str => {
                proof { reveal_strlit("String"); }
                "String"
            },
            Kind::Integer => {
                proof { reveal_strlit("Integer"); }
                "Integer"
            },
            Kind::Float => {
                proof { reveal_strlit("Float number"); }
                "Float number"
            },
            Kind::Boolean => {
                proof { reveal_strlit("Boolean"); }
                "Boolean"
            },
            Kind::Array => {
                proof { reveal_strlit("Array"); }
                "Array"
            },
            Kind::Table => {
                proof { reveal_strlit("Table"); }
                "Table"
            },
            Kind::Datetime => {
                proof { reveal_strlit("Date/Time"); }
                "Date/Time"
            },
        }
    }
}

/// The readable name of a node's variant.
pub fn variant_name(v: &Doc) -> (r: &'static str)
    ensures
        r@ == kind_name(v.kind_of()),
{
    v.kind().name()
}

} // verus!
