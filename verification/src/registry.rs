//! The catalog of primitive function descriptors.
//!
//! A registry is built once, at startup, from a declarative list of
//! registrations, and is read-only afterwards: it maps a function name to a
//! small integer id and an id back to its descriptor. Ids are the positions
//! in the registration list.

use vstd::prelude::*;

verus! {

/// A fatal configuration failure, surfaced when a query is bound, not per
/// row: the query names a function the runtime does not know about.
#[derive(Debug, PartialEq, Eq)]
pub enum ConfigurationError {
    UnknownFunction(String),
}

/// Descriptor of one primitive function: a qualified name (`module.symbol`),
/// the declared input and output field names, and a description. Immutable
/// once registered.
#[derive(Debug, PartialEq, Eq)]
pub struct FunctionDescriptor {
    pub name: String,
    pub scalar_input_fields: Vec<String>,
    pub vector_input_fields: Vec<String>,
    pub output_fields: Vec<String>,
    pub description: String,
}

/// Mathematical shape of a descriptor.
pub struct DescriptorModel {
    pub name: Seq<char>,
    pub scalar_input_fields: Seq<Seq<char>>,
    pub vector_input_fields: Seq<Seq<char>>,
    pub output_fields: Seq<Seq<char>>,
    pub description: Seq<char>,
}

impl View for FunctionDescriptor {
    type V = DescriptorModel;

    open spec fn view(&self) -> DescriptorModel {
        DescriptorModel {
            name: self.name@,
            scalar_input_fields: self.scalar_input_fields@.map_values(|s: String| s@),
            vector_input_fields: self.vector_input_fields@.map_values(|s: String| s@),
            output_fields: self.output_fields@.map_values(|s: String| s@),
            description: self.description@,
        }
    }
}

/// One registration, as the surrounding catalog supplies it: name, scalar
/// input field names, vector input field names, output field names, and a
/// description.
pub type Registration<'a> = (&'a str, Vec<&'a str>, Vec<&'a str>, Vec<&'a str>, &'a str);

/// The descriptor a registration tuple stands for.
pub open spec fn registration_model(e: Registration<'_>) -> DescriptorModel {
    DescriptorModel {
        name: e.0@,
        scalar_input_fields: e.1@.map_values(|s: &str| s@),
        vector_input_fields: e.2@.map_values(|s: &str| s@),
        output_fields: e.3@.map_values(|s: &str| s@),
        description: e.4@,
    }
}

/// The id `lookup` yields for a name: the position of the first descriptor
/// carrying that name, if any does.
pub open spec fn lookup_spec(r: Seq<DescriptorModel>, name: Seq<char>) -> Option<int>
    decreases r.len(),
{
    if r.len() == 0 {
        None
    } else if r[0].name == name {
        Some(0int)
    } else {
        match lookup_spec(r.drop_first(), name) {
            Some(i) => Some(i + 1),
            None => None,
        }
    }
}

/// The process-wide catalog: descriptors in registration order, indexed by
/// name through `lookup` and by id through `resolve`.
pub struct FunctionRegistry {
    descriptors: Vec<FunctionDescriptor>,
}

impl View for FunctionRegistry {
    type V = Seq<DescriptorModel>;

    closed spec fn view(&self) -> Seq<DescriptorModel> {
        self.descriptors@.map_values(|d: FunctionDescriptor| d@)
    }
}

impl FunctionRegistry {
    /// Builds the catalog, once, from the registration list the surrounding
    /// catalog supplies. Ids are positions in that list.
    pub fn register_all(list: Vec<Registration<'_>>) -> (r: FunctionRegistry)
        ensures
            r@.len() == list@.len(),
            forall|i: int| 0 <= i < list@.len() ==> r@[i] == registration_model(list@[i]),
    {
        let mut descriptors: Vec<FunctionDescriptor> = Vec::new();
        let mut i: usize = 0;
        while i < list.len()
            invariant
                i <= list.len(),
                descriptors@.len() == i,
                forall|j: int| 0 <= j < i ==> descriptors@[j]@ == registration_model(list@[j]),
            decreases list.len() - i,
        {
            let e = &list[i];
            let d = FunctionDescriptor {
                name: e.0.to_owned(),
                scalar_input_fields: own_all(&e.1),
                vector_input_fields: own_all(&e.2),
                output_fields: own_all(&e.3),
                description: e.4.to_owned(),
            };
            proof {
                assert(d@.scalar_input_fields =~= registration_model(list@[i as int]).scalar_input_fields);
                assert(d@.vector_input_fields =~= registration_model(list@[i as int]).vector_input_fields);
                assert(d@.output_fields =~= registration_model(list@[i as int]).output_fields);
            }
            descriptors.push(d);
            i = i + 1;
        }
        let r = FunctionRegistry { descriptors };
        proof {
            assert(forall|j: int| 0 <= j < list@.len() ==> r@[j] == registration_model(list@[j]));
        }
        r
    }

    /// How many functions are registered.
    pub fn len(&self) -> (n: usize)
        ensures
            n == self@.len(),
    {
        self.descriptors.len()
    }

    /// The id of the named function. Fails, fatally for the construction of
    /// the call site, exactly when no descriptor carries the name.
    pub fn lookup(&self, name: &str) -> (r: Result<usize, ConfigurationError>)
        ensures
            r matches Ok(id) ==> lookup_spec(self@, name@) == Some(id as int),
            r is Err <==> lookup_spec(self@, name@) is None,
            r matches Err(e) ==> (e matches ConfigurationError::UnknownFunction(n) && n@
                == name@),
    {
        let wanted: String = name.to_owned();
        let n = self.descriptors.len();
        let mut i: usize = 0;
        while i < n
            invariant
                n == self.descriptors@.len(),
                i <= n,
                wanted@ == name@,
                forall|j: int| 0 <= j < i ==> self@[j].name != name@,
            decreases n - i,
        {
            if self.descriptors[i].name == wanted {
                proof {
                    lemma_lookup_spec_first_match(self@, name@, i as int);
                }
                return Ok(i);
            }
            i = i + 1;
        }
        proof {
            lemma_lookup_spec_no_match(self@, name@);
        }
        Err(ConfigurationError::UnknownFunction(wanted))
    }

    /// The descriptor behind an id. Total over valid ids, which are the only
    /// ids `lookup` ever produces.
    pub fn resolve(&self, id: usize) -> (d: &FunctionDescriptor)
        requires
            id < self@.len(),
        ensures
            d@ == self@[id as int],
    {
        &self.descriptors[id]
    }
}

/// Owned copies of a list of borrowed names.
fn own_all(v: &Vec<&str>) -> (r: Vec<String>)
    ensures
        r@.len() == v@.len(),
        forall|i: int| 0 <= i < v@.len() ==> r@[i]@ == v@[i]@,
{
    let mut r: Vec<String> = Vec::new();
    let mut i: usize = 0;
    while i < v.len()
        invariant
            i <= v@.len(),
            r@.len() == i,
            forall|j: int| 0 <= j < i ==> r@[j]@ == v@[j]@,
        decreases v@.len() - i,
    {
        r.push(v[i].to_owned());
        i = i + 1;
    }
    r
}

/// Where the first `i` descriptors miss the name and descriptor `i` carries
/// it, `lookup_spec` picks `i`.
proof fn lemma_lookup_spec_first_match(r: Seq<DescriptorModel>, name: Seq<char>, i: int)
    requires
        0 <= i < r.len(),
        r[i].name == name,
        forall|j: int| 0 <= j < i ==> r[j].name != name,
    ensures
        lookup_spec(r, name) == Some(i),
    decreases i,
{
    if i > 0 {
        assert forall|j: int| 0 <= j < i - 1 implies r.drop_first()[j].name != name by {
            assert(r.drop_first()[j] == r[j + 1]);
        }
        assert(r.drop_first()[i - 1] == r[i]);
        lemma_lookup_spec_first_match(r.drop_first(), name, i - 1);
    }
}

/// Where no descriptor carries the name, `lookup_spec` finds nothing.
proof fn lemma_lookup_spec_no_match(r: Seq<DescriptorModel>, name: Seq<char>)
    requires
        forall|j: int| 0 <= j < r.len() ==> r[j].name != name,
    ensures
        lookup_spec(r, name) is None,
    decreases r.len(),
{
    if r.len() > 0 {
        assert forall|j: int| 0 <= j < r.len() - 1 implies r.drop_first()[j].name != name by {
            assert(r.drop_first()[j] == r[j + 1]);
        }
        lemma_lookup_spec_no_match(r.drop_first(), name);
    }
}

/// An id that `lookup_spec` yields always lies within the registry, at a
/// descriptor carrying the looked-up name.
pub proof fn lemma_lookup_spec_in_range(r: Seq<DescriptorModel>, name: Seq<char>)
    ensures
        lookup_spec(r, name) matches Some(i) ==> 0 <= i < r.len() && r[i].name == name,
    decreases r.len(),
{
    if r.len() > 0 && r[0].name != name {
        lemma_lookup_spec_in_range(r.drop_first(), name);
    }
}

/// Law: a registered name always resolves. Whenever some descriptor carries
/// `name`, `lookup_spec` yields an id within the registry, and the descriptor
/// `resolve` hands back for that id carries exactly `name`: the name
/// round-trips through `lookup` and `resolve`.
pub proof fn lemma_lookup_resolve_roundtrip(r: Seq<DescriptorModel>, name: Seq<char>)
    requires
        exists|i: int| 0 <= i < r.len() && r[i].name == name,
    ensures
        lookup_spec(r, name) matches Some(id) && 0 <= id < r.len() && r[id].name == name,
    decreases r.len(),
{
    if r[0].name == name {
    } else {
        let i = choose|i: int| 0 <= i < r.len() && r[i].name == name;
        assert(r.drop_first()[i - 1] == r[i]);
        lemma_lookup_resolve_roundtrip(r.drop_first(), name);
    }
}

/// Law: an unknown name never yields an id. Whenever no descriptor carries
/// `name`, `lookup_spec` finds nothing, and so `lookup` fails with
/// `UnknownFunction`.
pub proof fn lemma_unknown_name_never_resolves(r: Seq<DescriptorModel>, name: Seq<char>)
    requires
        forall|j: int| 0 <= j < r.len() ==> r[j].name != name,
    ensures
        lookup_spec(r, name) is None,
{
    lemma_lookup_spec_no_match(r, name);
}

/// A registration whose single vector input is the field `A` and whose single
/// output is the field `result`, as every observed primitive declares.
pub open spec fn vector_reduction_entry(
    e: Registration<'_>,
    name: Seq<char>,
    desc: Seq<char>,
) -> bool {
    &&& e.0@ == name
    &&& e.1@.len() == 0
    &&& e.2@.len() == 1 && e.2@[0]@ == "A"@
    &&& e.3@.len() == 1 && e.3@[0]@ == "result"@
    &&& e.4@ == desc
}

/// One registration of a vector-to-scalar reduction.
fn reduction_entry<'a>(name: &'a str, desc: &'a str) -> (e: Registration<'a>)
    ensures
        vector_reduction_entry(e, name@, desc@),
{
    let scalar_fields: Vec<&str> = Vec::new();
    let mut vector_fields: Vec<&str> = Vec::new();
    vector_fields.push("A");
    let mut output_fields: Vec<&str> = Vec::new();
    output_fields.push("result");
    (name, scalar_fields, vector_fields, output_fields, desc)
}

/// The fixed declarative list of primitive registrations: each one names a
/// routine of the external numeric engine as `module.symbol`, takes one
/// vector input field `A`, and yields one output field `result`.
pub fn python_funcs() -> (r: Vec<Registration<'static>>)
    ensures
        r@.len() == 7,
        vector_reduction_entry(r@[0], "numpy.amin"@, "Minimum value"@),
        vector_reduction_entry(r@[1], "numpy.amax"@, "Maximum value"@),
        vector_reduction_entry(r@[2], "numpy.median"@, "Median value"@),
        vector_reduction_entry(r@[3], "numpy.average"@, "Average value"@),
        vector_reduction_entry(r@[4], "numpy.mean"@, "Arithmetic mean"@),
        vector_reduction_entry(r@[5], "numpy.std"@, "Standard deviation."@),
        vector_reduction_entry(r@[6], "numpy.var"@, "Variance"@),
{
    let mut r: Vec<Registration<'static>> = Vec::new();
    r.push(reduction_entry("numpy.amin", "Minimum value"));
    r.push(reduction_entry("numpy.amax", "Maximum value"));
    r.push(reduction_entry("numpy.median", "Median value"));
    r.push(reduction_entry("numpy.average", "Average value"));
    r.push(reduction_entry("numpy.mean", "Arithmetic mean"));
    r.push(reduction_entry("numpy.std", "Standard deviation."));
    r.push(reduction_entry("numpy.var", "Variance"));
    r
}

} // verus!
