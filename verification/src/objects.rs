//! The data model: the four kinds of transit object a rule can target, the
//! rule record itself, and the code set every targetable object carries.

use vstd::prelude::*;

verus! {

/// The closed set of object kinds a rule record may target.
#[derive(Clone, Copy, Debug, PartialEq, Eq, Structural)]
pub enum ObjectType {
    Line,
    Route,
    StopPoint,
    StopArea,
}

impl ObjectType {
    /// The stable tag of this kind, as it appears in rule files and in
    /// report messages.
    pub open spec fn spec_tag(self) -> Seq<char> {
        match self {
            ObjectType::Line => "line"@,
            ObjectType::Route => "route"@,
            ObjectType::StopPoint => "stop_point"@,
            ObjectType::StopArea => "stop_area"@,
        }
    }

    /// The human-readable tag of this kind.
    pub fn as_str(&self) -> (r: &'static str)
        ensures
            r@ == self.spec_tag(),
    {
        match *self {
            ObjectType::Line => "line",
            ObjectType::Route => "route",
            ObjectType::StopPoint => "stop_point",
            ObjectType::StopArea => "stop_area",
        }
    }
}

/// The mathematical content of a rule record.
pub ghost struct ComplementaryCodeView {
    pub object_type: ObjectType,
    pub object_id: Seq<char>,
    pub object_system: Seq<char>,
    pub object_code: Seq<char>,
}

/// One parsed rule record: attach the code `(object_system, object_code)`
/// to the object of kind `object_type` whose id is `object_id`.
#[derive(Debug)]
pub struct ComplementaryCode {
    pub object_type: ObjectType,
    pub object_id: String,
    pub object_system: String,
    pub object_code: String,
}

impl View for ComplementaryCode {
    type V = ComplementaryCodeView;

    open spec fn view(&self) -> ComplementaryCodeView {
        ComplementaryCodeView {
            object_type: self.object_type,
            object_id: self.object_id@,
            object_system: self.object_system@,
            object_code: self.object_code@,
        }
    }
}

impl PartialEq for ComplementaryCode {
    /// Structural equality over all four fields.
    fn eq(&self, other: &ComplementaryCode) -> (r: bool) {
        self.object_type == other.object_type && self.object_id == other.object_id
            && self.object_system == other.object_system && self.object_code == other.object_code
    }
}

impl vstd::std_specs::cmp::PartialEqSpecImpl for ComplementaryCode {
    open spec fn obeys_eq_spec() -> bool {
        true
    }

    open spec fn eq_spec(&self, other: &ComplementaryCode) -> bool {
        self@ == other@
    }
}

/// The mathematical content of one targetable object: its id and its code
/// set, the latter kept as the sequence in which the pairs were attached.
pub ghost struct EntityModel {
    pub id: Seq<char>,
    pub codes: Seq<(Seq<char>, Seq<char>)>,
}

/// The views of a sequence of `(system, value)` code pairs.
pub open spec fn code_pairs_view(s: Seq<(String, String)>) -> Seq<(Seq<char>, Seq<char>)> {
    s.map_values(|p: (String, String)| (p.0@, p.1@))
}

/// Set-semantic insertion: a pair already present is absorbed, a new pair
/// is appended.
pub open spec fn seq_insert(s: Seq<(Seq<char>, Seq<char>)>, pair: (Seq<char>, Seq<char>)) -> Seq<
    (Seq<char>, Seq<char>),
> {
    if s.contains(pair) {
        s
    } else {
        s.push(pair)
    }
}

/// `m` after attaching one code pair to its code set.
pub open spec fn model_insert(m: EntityModel, pair: (Seq<char>, Seq<char>)) -> EntityModel {
    EntityModel { id: m.id, codes: seq_insert(m.codes, pair) }
}

/// A transit object that carries an id and a set of complementary codes.
pub trait Codes: Sized {
    /// The id and code set of this object.
    spec fn model(&self) -> EntityModel;

    /// The object's id.
    fn id(&self) -> (r: &String)
        ensures
            r@ == self.model().id,
    ;

    /// Attaches `(system, code)` to this object's code set; attaching a
    /// pair that is already present changes nothing.
    fn insert_code_pair(&mut self, system: String, code: String)
        ensures
            final(self).model() == model_insert(old(self).model(), (system@, code@)),
    ;
}

/// Whether the code pair list already holds `(system, code)`.
fn pairs_contain(v: &Vec<(String, String)>, system: &String, code: &String) -> (r: bool)
    ensures
        r == code_pairs_view(v@).contains((system@, code@)),
{
    let ghost pair = (system@, code@);
    let mut i: usize = 0;
    while i < v.len()
        invariant
            pair == (system@, code@),
            i <= v@.len(),
            forall|j: int| 0 <= j < i ==> code_pairs_view(v@)[j] != pair,
        decreases v@.len() - i,
    {
        proof {
            assert(code_pairs_view(v@)[i as int] == (v@[i as int].0@, v@[i as int].1@));
        }
        let p = &v[i];
        if p.0 == *system && p.1 == *code {
            return true;
        }
        i += 1;
    }
    false
}

/// Set-semantic insertion into a code pair list.
fn pairs_insert(v: &mut Vec<(String, String)>, system: String, code: String)
    ensures
        code_pairs_view(final(v)@) == seq_insert(code_pairs_view(old(v)@), (system@, code@)),
{
    let ghost pair = (system@, code@);
    let ghost pre = code_pairs_view(v@);
    if !pairs_contain(v, &system, &code) {
        v.push((system, code));
        proof {
            assert(code_pairs_view(v@) =~= pre.push(pair));
        }
    }
}

/// A commercial line of the network.
#[derive(Debug)]
pub struct Line {
    pub id: String,
    pub codes: Vec<(String, String)>,
}

impl Codes for Line {
    open spec fn model(&self) -> EntityModel {
        EntityModel { id: self.id@, codes: code_pairs_view(self.codes@) }
    }

    fn id(&self) -> (r: &String) {
        &self.id
    }

    fn insert_code_pair(&mut self, system: String, code: String) {
        pairs_insert(&mut self.codes, system, code);
    }
}

/// One directed variant of a line.
#[derive(Debug)]
pub struct Route {
    pub id: String,
    pub codes: Vec<(String, String)>,
}

impl Codes for Route {
    open spec fn model(&self) -> EntityModel {
        EntityModel { id: self.id@, codes: code_pairs_view(self.codes@) }
    }

    fn id(&self) -> (r: &String) {
        &self.id
    }

    fn insert_code_pair(&mut self, system: String, code: String) {
        pairs_insert(&mut self.codes, system, code);
    }
}

/// A physical boarding point.
#[derive(Debug)]
pub struct StopPoint {
    pub id: String,
    pub codes: Vec<(String, String)>,
}

impl Codes for StopPoint {
    open spec fn model(&self) -> EntityModel {
        EntityModel { id: self.id@, codes: code_pairs_view(self.codes@) }
    }

    fn id(&self) -> (r: &String) {
        &self.id
    }

    fn insert_code_pair(&mut self, system: String, code: String) {
        pairs_insert(&mut self.codes, system, code);
    }
}

/// A named group of stop points.
#[derive(Debug)]
pub struct StopArea {
    pub id: String,
    pub codes: Vec<(String, String)>,
}

impl Codes for StopArea {
    open spec fn model(&self) -> EntityModel {
        EntityModel { id: self.id@, codes: code_pairs_view(self.codes@) }
    }

    fn id(&self) -> (r: &String) {
        &self.id
    }

    fn insert_code_pair(&mut self, system: String, code: String) {
        pairs_insert(&mut self.codes, system, code);
    }
}

} // verus!
