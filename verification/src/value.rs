//! The tagged value model and the single type-compatibility gate.
//!
//! A `Value` is what the surrounding engine hands in as a call argument and
//! takes back inside output and diagnostic rows. The only structure this
//! layer reads out of it is whether it is a homogeneous numeric column, and
//! if so, which numbers it holds.

use vstd::prelude::*;

verus! {

/// Mathematical shape of one column entry.
#[verifier::ext_equal]
pub enum ScalarModel {
    Text(Seq<char>),
    /// A floating-point number, as the 64 bits of its IEEE-754 encoding.
    Float(u64),
}

/// Mathematical shape of a tagged value.
#[verifier::ext_equal]
pub enum ValueModel {
    Text(Seq<char>),
    /// A floating-point number, as the 64 bits of its IEEE-754 encoding.
    Float(u64),
    Column(Seq<ScalarModel>),
}

/// One entry of a column: text, or a floating-point number carried as the
/// 64 bits of its IEEE-754 encoding.
#[derive(Debug, PartialEq, Eq)]
pub enum Scalar {
    Text(String),
    Float(u64),
}

/// A tagged relational value: text, a single floating-point number, or an
/// ordered column of scalar entries. Numbers are carried as the 64 bits of
/// their IEEE-754 encoding; this layer never does arithmetic on them.
#[derive(Debug, PartialEq, Eq)]
pub enum Value {
    Text(String),
    Float(u64),
    Column(Vec<Scalar>),
}

impl View for Scalar {
    type V = ScalarModel;

    open spec fn view(&self) -> ScalarModel {
        match self {
            Scalar::Text(s) => ScalarModel::Text(s@),
            Scalar::Float(bits) => ScalarModel::Float(*bits),
        }
    }
}

impl View for Value {
    type V = ValueModel;

    open spec fn view(&self) -> ValueModel {
        match self {
            Value::Text(s) => ValueModel::Text(s@),
            Value::Float(bits) => ValueModel::Float(*bits),
            Value::Column(entries) => ValueModel::Column(
                entries@.map_values(|e: Scalar| e@),
            ),
        }
    }
}

impl Clone for Scalar {
    fn clone(&self) -> (r: Self)
        ensures
            r@ == self@,
    {
        match self {
            Scalar::Text(s) => Scalar::Text(s.clone()),
            Scalar::Float(bits) => Scalar::Float(*bits),
        }
    }
}

impl Clone for Value {
    fn clone(&self) -> (r: Self)
        ensures
            r@ == self@,
    {
        match self {
            Value::Text(s) => Value::Text(s.clone()),
            Value::Float(bits) => Value::Float(*bits),
            Value::Column(entries) => {
                let mut out: Vec<Scalar> = Vec::new();
                let mut i: usize = 0;
                while i < entries.len()
                    invariant
                        i <= entries.len(),
                        out@.len() == i,
                        forall|j: int| 0 <= j < i ==> out@[j]@ == entries@[j]@,
                    decreases entries.len() - i,
                {
                    out.push(entries[i].clone());
                    i = i + 1;
                }
                proof {
                    assert(out@.map_values(|e: Scalar| e@) =~= entries@.map_values(
                        |e: Scalar| e@,
                    ));
                }
                Value::Column(out)
            },
        }
    }
}

/// A value coerces as a numeric sequence exactly when it is a column all of
/// whose entries are numbers.
pub open spec fn is_numeric_column(v: ValueModel) -> bool {
    &&& v is Column
    &&& forall|i: int| 0 <= i < v->Column_0.len() ==> v->Column_0[i] is Float
}

/// The numbers a numeric column holds, in order, as IEEE-754 bit patterns.
pub open spec fn numeric_entries(v: ValueModel) -> Seq<u64>
    recommends
        is_numeric_column(v),
{
    v->Column_0.map_values(|e: ScalarModel| e->Float_0)
}

/// The mathematical shape of one row of values.
pub open spec fn row_model(r: Seq<Value>) -> Seq<ValueModel> {
    r.map_values(|v: Value| v@)
}

/// The mathematical shape of an ordered collection of rows: the result rows
/// of a call, or the error sink, oldest row first.
pub open spec fn rows_model(e: Seq<Vec<Value>>) -> Seq<Seq<ValueModel>> {
    e.map_values(|r: Vec<Value>| row_model(r@))
}

impl Value {
    /// The sole type-compatibility check: interpret this value as an ordered
    /// numeric sequence. The whole value either converts cleanly or the
    /// coercion fails; there is no element-by-element partial result.
    #[verifier::loop_isolation(false)]
    pub fn as_numeric_sequence(&self) -> (r: Option<Vec<u64>>)
        ensures
            r is Some <==> is_numeric_column(self@),
            r matches Some(xs) ==> xs@ == numeric_entries(self@),
    {
        match self {
            Value::Column(entries) => {
                let mut out: Vec<u64> = Vec::new();
                let mut i: usize = 0;
                while i < entries.len()
                    invariant
                        i <= entries.len(),
                        out@.len() == i,
                        forall|j: int| 0 <= j < i ==> entries@[j]@ is Float,
                        forall|j: int| 0 <= j < i ==> out@[j] == entries@[j]@->Float_0,
                    decreases entries.len() - i,
                {
                    match &entries[i] {
                        Scalar::Float(bits) => out.push(*bits),
                        Scalar::Text(_) => {
                            proof {
                                assert(self@->Column_0[i as int] == entries@[i as int]@);
                            }
                            return None;
                        },
                    }
                    i = i + 1;
                }
                proof {
                    assert(out@ =~= numeric_entries(self@));
                }
                Some(out)
            },
            _ => None,
        }
    }
}

} // verus!
