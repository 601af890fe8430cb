//! Graph values: nodes, relationships and paths.
use crate::constants::signature::{TYPE_NODE, TYPE_PATH, TYPE_RELATIONSHIP};
use crate::error::{fails_with, ErrorCode, SerdeError, SerdeResult};
use crate::value::structure::{
    field_map, fields_of, into_i64, into_list, into_map, into_string, key, structure_error, structure_fields,
    take_fields, take_first, BoltStructure,
};
use crate::value::{lemma_model_parts, models, Value, ValueMap, ValueModel};
use vstd::prelude::*;

verus! {

/// The models of strings.
pub open spec fn strings_model(s: Seq<String>) -> Seq<ValueModel> {
    Seq::new(s.len(), |i: int| ValueModel::String(s[i]@))
}

/// The models of integers.
pub open spec fn ints_model(s: Seq<i64>) -> Seq<ValueModel> {
    Seq::new(s.len(), |i: int| ValueModel::I64(s[i]))
}

/// Whether every value is a string.
pub open spec fn all_strings(items: Seq<ValueModel>) -> bool {
    forall|i: int| 0 <= i < items.len() ==> #[trigger] items[i] is String
}

/// Whether every value is an integer.
pub open spec fn all_ints(items: Seq<ValueModel>) -> bool {
    forall|i: int| 0 <= i < items.len() ==> #[trigger] items[i] is I64
}

/// The strings that the values hold.
fn into_strings(items: Vec<Value>) -> (r: SerdeResult<Vec<String>>)
    ensures
        all_strings(models(items@)) ==> (r matches Ok(s) && strings_model(s@) == models(items@)),
        !all_strings(models(items@)) ==> fails_with(r, ErrorCode::UnexpectedValue),
{
    let mut out: Vec<String> = Vec::new();
    let mut i: usize = 0;
    while i < items.len()
        invariant
            i <= items@.len(),
            out@.len() == i,
            forall|j: int| 0 <= j < i ==> #[trigger] models(items@)[j] == ValueModel::String(out@[j]@),
        decreases items@.len() - i,
    {
        match &items[i] {
            Value::String(s) => out.push(s.clone()),
            _ => {
                assert(!(models(items@)[i as int] is String));
                return Err(SerdeError::create(ErrorCode::UnexpectedValue));
            },
        }
        i = i + 1;
    }
    assert(strings_model(out@) =~= models(items@));
    Ok(out)
}

/// The integers that the values hold.
fn into_ints(items: Vec<Value>) -> (r: SerdeResult<Vec<i64>>)
    ensures
        all_ints(models(items@)) ==> (r matches Ok(s) && ints_model(s@) == models(items@)),
        !all_ints(models(items@)) ==> fails_with(r, ErrorCode::UnexpectedValue),
{
    let mut out: Vec<i64> = Vec::new();
    let mut i: usize = 0;
    while i < items.len()
        invariant
            i <= items@.len(),
            out@.len() == i,
            forall|j: int| 0 <= j < i ==> #[trigger] models(items@)[j] == ValueModel::I64(out@[j]),
        decreases items@.len() - i,
    {
        match &items[i] {
            Value::I64(v) => out.push(*v),
            _ => {
                assert(!(models(items@)[i as int] is I64));
                return Err(SerdeError::create(ErrorCode::UnexpectedValue));
            },
        }
        i = i + 1;
    }
    assert(ints_model(out@) =~= models(items@));
    Ok(out)
}

/// Values of the strings.
fn string_values(s: &Vec<String>) -> (v: Vec<Value>)
    ensures
        models(v@) == strings_model(s@),
{
    let mut out: Vec<Value> = Vec::new();
    let mut i: usize = 0;
    while i < s.len()
        invariant
            i <= s@.len(),
            out@.len() == i,
            forall|j: int| 0 <= j < i ==> #[trigger] out@[j].model() == ValueModel::String(s@[j]@),
        decreases s@.len() - i,
    {
        out.push(Value::String(s[i].clone()));
        i = i + 1;
    }
    assert(models(out@) =~= strings_model(s@));
    out
}

/// Values of the integers.
fn int_values(s: &Vec<i64>) -> (v: Vec<Value>)
    ensures
        models(v@) == ints_model(s@),
{
    let mut out: Vec<Value> = Vec::new();
    let mut i: usize = 0;
    while i < s.len()
        invariant
            i <= s@.len(),
            out@.len() == i,
            forall|j: int| 0 <= j < i ==> #[trigger] out@[j].model() == ValueModel::I64(s@[j]),
        decreases s@.len() - i,
    {
        out.push(Value::I64(s[i]));
        i = i + 1;
    }
    assert(models(out@) =~= ints_model(s@));
    out
}

/// A node: its identity, its labels and its properties.
#[derive(Debug, PartialEq)]
pub struct Node {
    pub identity: i64,
    pub labels: Vec<String>,
    pub properties: ValueMap,
}

impl Node {
    /// The fields by name.
    pub open spec fn fields_model(&self) -> ValueModel {
        ValueModel::Dictionary(
            seq![
                (key("identity"), ValueModel::I64(self.identity)),
                (key("labels"), ValueModel::List(strings_model(self.labels@))),
                (key("properties"), ValueModel::Dictionary(self.properties.model())),
            ],
        )
    }

    /// The fields by name, as a dictionary.
    pub fn into_value(&self) -> (v: Value)
        ensures
            v.model() == self.fields_model(),
    {
        let labels = Value::List(string_values(&self.labels));
        proof {
            lemma_model_parts(&labels);
        }
        let properties = Value::Dictionary(self.properties.deep_clone());
        proof {
            lemma_model_parts(&properties);
        }
        let v = field_map(
            vec![
                ("identity", Value::I64(self.identity)),
                ("labels", labels),
                ("properties", properties),
            ],
        );
        assert(v.model()->Dictionary_0 =~= self.fields_model()->Dictionary_0);
        v
    }
}

impl BoltStructure for Node {
    open spec fn structure_model(&self) -> ValueModel {
        ValueModel::Structure(
            TYPE_NODE,
            seq![
                ValueModel::I64(self.identity),
                ValueModel::List(strings_model(self.labels@)),
                ValueModel::Dictionary(self.properties.model()),
            ],
        )
    }

    open spec fn accepts(m: ValueModel) -> bool {
        &&& structure_fields(m, TYPE_NODE, 3)
        &&& fields_of(m)[0] is I64
        &&& fields_of(m)[1] matches ValueModel::List(items) && all_strings(items)
        &&& fields_of(m)[2] is Dictionary
    }

    open spec fn read_from(m: ValueModel, t: Self) -> bool {
        t.structure_model() == m
    }

    open spec fn rejection(m: ValueModel) -> ErrorCode {
        if !structure_fields(m, TYPE_NODE, 3) {
            structure_error(m, TYPE_NODE, 3)
        } else {
            ErrorCode::UnexpectedValue
        }
    }

    proof fn lemma_accepts_own(&self) {
    }

    proof fn lemma_read_own(&self, t: Self) {
    }

    fn to_structure(&self) -> (v: Value)
        ensures
            v.model() == ValueModel::Structure(
                TYPE_NODE,
                seq![
                    ValueModel::I64(self.identity),
                    ValueModel::List(strings_model(self.labels@)),
                    ValueModel::Dictionary(self.properties.model()),
                ],
            ),
    {
        let mut fields = Vec::new();
        fields.push(Value::I64(self.identity));
        fields.push(Value::List(string_values(&self.labels)));
        fields.push(Value::Dictionary(self.properties.deep_clone()));
        let v = Value::Structure { signature: TYPE_NODE, fields };
        proof {
            lemma_model_parts(&v);
            lemma_model_parts(&fields@[1]);
            lemma_model_parts(&fields@[2]);
            assert(models(fields@) =~= fields_of(self.structure_model()));
        }
        v
    }

    fn from_value(v: Value) -> (r: SerdeResult<Self>)
        ensures
            r matches Ok(t) ==> {
                &&& fields_of(v.model())[0] == ValueModel::I64(t.identity)
                &&& fields_of(v.model())[1] == ValueModel::List(strings_model(t.labels@))
                &&& fields_of(v.model())[2] == ValueModel::Dictionary(t.properties.model())
            },
    {
        let ghost m = v.model();
        let mut fields = take_fields(v, TYPE_NODE, 3)?;
        let identity = into_i64(take_first(&mut fields))?;
        let labels = into_strings(into_list(take_first(&mut fields))?)?;
        let properties = into_map(take_first(&mut fields))?;
        let t = Node { identity, labels, properties };
        assert(fields_of(t.structure_model()) =~= fields_of(m));
        Ok(t)
    }
}

/// A relationship between two nodes: its identity, the identities of its
/// ends, its type and its properties.
#[derive(Debug, PartialEq)]
pub struct Relationship {
    pub identity: i64,
    pub start_node_identity: i64,
    pub end_node_identity: i64,
    pub rel_type: String,
    pub properties: ValueMap,
}

impl BoltStructure for Relationship {
    open spec fn structure_model(&self) -> ValueModel {
        ValueModel::Structure(
            TYPE_RELATIONSHIP,
            seq![
                ValueModel::I64(self.identity),
                ValueModel::I64(self.start_node_identity),
                ValueModel::I64(self.end_node_identity),
                ValueModel::String(self.rel_type@),
                ValueModel::Dictionary(self.properties.model()),
            ],
        )
    }

    open spec fn accepts(m: ValueModel) -> bool {
        &&& structure_fields(m, TYPE_RELATIONSHIP, 5)
        &&& fields_of(m)[0] is I64
        &&& fields_of(m)[1] is I64
        &&& fields_of(m)[2] is I64
        &&& fields_of(m)[3] is String
        &&& fields_of(m)[4] is Dictionary
    }

    open spec fn read_from(m: ValueModel, t: Self) -> bool {
        t.structure_model() == m
    }

    open spec fn rejection(m: ValueModel) -> ErrorCode {
        if !structure_fields(m, TYPE_RELATIONSHIP, 5) {
            structure_error(m, TYPE_RELATIONSHIP, 5)
        } else {
            ErrorCode::UnexpectedValue
        }
    }

    proof fn lemma_accepts_own(&self) {
    }

    proof fn lemma_read_own(&self, t: Self) {
    }

    fn to_structure(&self) -> (v: Value)
        ensures
            v.model() == ValueModel::Structure(
                TYPE_RELATIONSHIP,
                seq![
                    ValueModel::I64(self.identity),
                    ValueModel::I64(self.start_node_identity),
                    ValueModel::I64(self.end_node_identity),
                    ValueModel::String(self.rel_type@),
                    ValueModel::Dictionary(self.properties.model()),
                ],
            ),
    {
        let mut fields = Vec::new();
        fields.push(Value::I64(self.identity));
        fields.push(Value::I64(self.start_node_identity));
        fields.push(Value::I64(self.end_node_identity));
        fields.push(Value::String(self.rel_type.clone()));
        fields.push(Value::Dictionary(self.properties.deep_clone()));
        let v = Value::Structure { signature: TYPE_RELATIONSHIP, fields };
        proof {
            lemma_model_parts(&v);
            lemma_model_parts(&fields@[4]);
            assert(models(fields@) =~= fields_of(self.structure_model()));
        }
        v
    }

    fn from_value(v: Value) -> (r: SerdeResult<Self>)
        ensures
            r matches Ok(t) ==> {
                &&& fields_of(v.model())[0] == ValueModel::I64(t.identity)
                &&& fields_of(v.model())[1] == ValueModel::I64(t.start_node_identity)
                &&& fields_of(v.model())[2] == ValueModel::I64(t.end_node_identity)
                &&& fields_of(v.model())[3] == ValueModel::String(t.rel_type@)
                &&& fields_of(v.model())[4] == ValueModel::Dictionary(t.properties.model())
            },
    {
        let ghost m = v.model();
        let mut fields = take_fields(v, TYPE_RELATIONSHIP, 5)?;
        let identity = into_i64(take_first(&mut fields))?;
        let start_node_identity = into_i64(take_first(&mut fields))?;
        let end_node_identity = into_i64(take_first(&mut fields))?;
        let rel_type = into_string(take_first(&mut fields))?;
        let properties = into_map(take_first(&mut fields))?;
        let t = Relationship { identity, start_node_identity, end_node_identity, rel_type, properties };
        assert(fields_of(t.structure_model()) =~= fields_of(m));
        Ok(t)
    }
}

/// A relationship within a path, whose ends the path gives: its identity,
/// its type and its properties. It travels under the relationship
/// signature, with three fields where a relationship has five.
#[derive(Debug, PartialEq)]
pub struct UnboundRelationship {
    pub identity: i64,
    pub rel_type: String,
    pub properties: ValueMap,
}

impl UnboundRelationship {
    /// The fields by name.
    pub open spec fn fields_model(&self) -> ValueModel {
        ValueModel::Dictionary(
            seq![
                (key("identity"), ValueModel::I64(self.identity)),
                (key("type"), ValueModel::String(self.rel_type@)),
                (key("properties"), ValueModel::Dictionary(self.properties.model())),
            ],
        )
    }

    /// The fields by name, as a dictionary.
    pub fn into_value(&self) -> (v: Value)
        ensures
            v.model() == self.fields_model(),
    {
        let properties = Value::Dictionary(self.properties.deep_clone());
        proof {
            lemma_model_parts(&properties);
        }
        let v = field_map(
            vec![
                ("identity", Value::I64(self.identity)),
                ("type", Value::String(self.rel_type.clone())),
                ("properties", properties),
            ],
        );
        assert(v.model()->Dictionary_0 =~= self.fields_model()->Dictionary_0);
        v
    }
}

impl BoltStructure for UnboundRelationship {
    open spec fn structure_model(&self) -> ValueModel {
        ValueModel::Structure(
            TYPE_RELATIONSHIP,
            seq![
                ValueModel::I64(self.identity),
                ValueModel::String(self.rel_type@),
                ValueModel::Dictionary(self.properties.model()),
            ],
        )
    }

    open spec fn accepts(m: ValueModel) -> bool {
        &&& structure_fields(m, TYPE_RELATIONSHIP, 3)
        &&& fields_of(m)[0] is I64
        &&& fields_of(m)[1] is String
        &&& fields_of(m)[2] is Dictionary
    }

    open spec fn read_from(m: ValueModel, t: Self) -> bool {
        t.structure_model() == m
    }

    open spec fn rejection(m: ValueModel) -> ErrorCode {
        if !structure_fields(m, TYPE_RELATIONSHIP, 3) {
            structure_error(m, TYPE_RELATIONSHIP, 3)
        } else {
            ErrorCode::UnexpectedValue
        }
    }

    proof fn lemma_accepts_own(&self) {
    }

    proof fn lemma_read_own(&self, t: Self) {
    }

    fn to_structure(&self) -> (v: Value)
        ensures
            v.model() == ValueModel::Structure(
                TYPE_RELATIONSHIP,
                seq![
                    ValueModel::I64(self.identity),
                    ValueModel::String(self.rel_type@),
                    ValueModel::Dictionary(self.properties.model()),
                ],
            ),
    {
        let mut fields = Vec::new();
        fields.push(Value::I64(self.identity));
        fields.push(Value::String(self.rel_type.clone()));
        fields.push(Value::Dictionary(self.properties.deep_clone()));
        let v = Value::Structure { signature: TYPE_RELATIONSHIP, fields };
        proof {
            lemma_model_parts(&v);
            lemma_model_parts(&fields@[2]);
            assert(models(fields@) =~= fields_of(self.structure_model()));
        }
        v
    }

    fn from_value(v: Value) -> (r: SerdeResult<Self>)
        ensures
            r matches Ok(t) ==> {
                &&& fields_of(v.model())[0] == ValueModel::I64(t.identity)
                &&& fields_of(v.model())[1] == ValueModel::String(t.rel_type@)
                &&& fields_of(v.model())[2] == ValueModel::Dictionary(t.properties.model())
            },
    {
        let ghost m = v.model();
        let mut fields = take_fields(v, TYPE_RELATIONSHIP, 3)?;
        let identity = into_i64(take_first(&mut fields))?;
        let rel_type = into_string(take_first(&mut fields))?;
        let properties = into_map(take_first(&mut fields))?;
        let t = UnboundRelationship { identity, rel_type, properties };
        assert(fields_of(t.structure_model()) =~= fields_of(m));
        Ok(t)
    }
}

/// Law: a structure of the relationship signature holding three integers,
/// a string and a dictionary reads as the relationship whose identity, start
/// node and end node are the three integers in that order, whose type is the
/// string and whose properties are the dictionary.
pub proof fn lemma_relationship_reading(
    a: i64,
    b: i64,
    c: i64,
    ty: Seq<char>,
    props: Seq<(Seq<char>, ValueModel)>,
    t: Relationship,
)
    ensures
        ({
            let m = ValueModel::Structure(
                TYPE_RELATIONSHIP,
                seq![
                    ValueModel::I64(a),
                    ValueModel::I64(b),
                    ValueModel::I64(c),
                    ValueModel::String(ty),
                    ValueModel::Dictionary(props),
                ],
            );
            &&& Relationship::accepts(m)
            &&& Relationship::read_from(m, t) ==> {
                &&& t.identity == a
                &&& t.start_node_identity == b
                &&& t.end_node_identity == c
                &&& t.rel_type@ == ty
                &&& t.properties.model() == props
            }
        }),
{
    let m = ValueModel::Structure(
        TYPE_RELATIONSHIP,
        seq![
            ValueModel::I64(a),
            ValueModel::I64(b),
            ValueModel::I64(c),
            ValueModel::String(ty),
            ValueModel::Dictionary(props),
        ],
    );
    if Relationship::read_from(m, t) {
        let f = t.structure_model()->Structure_1;
        assert(f[0] == m->Structure_1[0]);
        assert(f[1] == m->Structure_1[1]);
        assert(f[2] == m->Structure_1[2]);
        assert(f[3] == m->Structure_1[3]);
        assert(f[4] == m->Structure_1[4]);
    }
}

/// The structures that the typed values travel as.
pub open spec fn structure_models<T: BoltStructure>(s: Seq<T>) -> Seq<ValueModel> {
    Seq::new(s.len(), |i: int| s[i].structure_model())
}

/// Whether every value reads as `T`.
pub open spec fn all_accepted<T: BoltStructure>(items: Seq<ValueModel>) -> bool {
    forall|i: int| 0 <= i < items.len() ==> #[trigger] T::accepts(items[i])
}

/// The error of the first value that does not read as `T`.
pub open spec fn first_rejection<T: BoltStructure>(items: Seq<ValueModel>) -> ErrorCode
    decreases items.len(),
{
    if items.len() == 0 {
        ErrorCode::UnexpectedValue
    } else if !T::accepts(items[0]) {
        T::rejection(items[0])
    } else {
        first_rejection::<T>(items.drop_first())
    }
}

/// Reads each value as `T`; fails on the first that does not read as one.
fn into_structures<T: BoltStructure>(items: Vec<Value>) -> (r: SerdeResult<Vec<T>>)
    ensures
        r is Ok <==> all_accepted::<T>(models(items@)),
        r matches Ok(out) ==> out@.len() == items@.len() && forall|i: int|
            0 <= i < items@.len() ==> T::read_from(models(items@)[i], #[trigger] out@[i]),
        r is Err ==> fails_with(r, first_rejection::<T>(models(items@))),
{
    let ghost ms = models(items@);
    let mut out: Vec<T> = Vec::new();
    let mut i: usize = 0;
    assert(ms.subrange(0, ms.len() as int) =~= ms);
    while i < items.len()
        invariant
            i <= items@.len(),
            ms == models(items@),
            out@.len() == i,
            forall|j: int| 0 <= j < i ==> #[trigger] T::accepts(ms[j]),
            forall|j: int| 0 <= j < i ==> T::read_from(ms[j], #[trigger] out@[j]),
            first_rejection::<T>(ms) == first_rejection::<T>(ms.subrange(i as int, ms.len() as int)),
        decreases items@.len() - i,
    {
        let ghost rest = ms.subrange(i as int, ms.len() as int);
        assert(rest[0] == ms[i as int]);
        assert(rest.drop_first() =~= ms.subrange(i + 1, ms.len() as int));
        let t = T::from_value(items[i].deep_clone())?;
        out.push(t);
        i = i + 1;
    }
    Ok(out)
}

/// A path through the graph: its nodes, its relationships, and the
/// sequence of indices that walks them.
#[derive(Debug, PartialEq)]
pub struct Path {
    pub nodes: Vec<Node>,
    pub relationships: Vec<UnboundRelationship>,
    pub sequence: Vec<i64>,
}

/// Values of the typed values' structures.
fn structure_values<T: BoltStructure>(s: &Vec<T>) -> (v: Vec<Value>)
    ensures
        models(v@) == structure_models(s@),
{
    let mut out: Vec<Value> = Vec::new();
    let mut i: usize = 0;
    while i < s.len()
        invariant
            i <= s@.len(),
            out@.len() == i,
            forall|j: int| 0 <= j < i ==> #[trigger] out@[j].model() == s@[j].structure_model(),
        decreases s@.len() - i,
    {
        out.push(s[i].to_structure());
        i = i + 1;
    }
    assert(models(out@) =~= structure_models(s@));
    out
}

impl Path {
    /// The fields by name: the nodes and the relationships each by its
    /// fields by name.
    pub open spec fn fields_model(&self) -> ValueModel {
        ValueModel::Dictionary(
            seq![
                (key("nodes"), ValueModel::List(Seq::new(self.nodes@.len(), |i: int| self.nodes@[i].fields_model()))),
                (key("relationships"), ValueModel::List(Seq::new(self.relationships@.len(), |i: int| self.relationships@[i].fields_model()))),
                (key("sequence"), ValueModel::List(ints_model(self.sequence@))),
            ],
        )
    }

    /// The fields by name, as a dictionary.
    pub fn into_value(&self) -> (v: Value)
        ensures
            v.model() == self.fields_model(),
    {
        let mut nodes: Vec<Value> = Vec::new();
        let mut i: usize = 0;
        while i < self.nodes.len()
            invariant
                i <= self.nodes@.len(),
                nodes@.len() == i,
                forall|j: int| 0 <= j < i ==> #[trigger] nodes@[j].model() == self.nodes@[j].fields_model(),
            decreases self.nodes@.len() - i,
        {
            nodes.push(self.nodes[i].into_value());
            i = i + 1;
        }
        let mut relationships: Vec<Value> = Vec::new();
        let mut i: usize = 0;
        while i < self.relationships.len()
            invariant
                i <= self.relationships@.len(),
                relationships@.len() == i,
                forall|j: int|
                    0 <= j < i ==> #[trigger] relationships@[j].model() == self.relationships@[j].fields_model(),
            decreases self.relationships@.len() - i,
        {
            relationships.push(self.relationships[i].into_value());
            i = i + 1;
        }
        let nodes = Value::List(nodes);
        let relationships = Value::List(relationships);
        let sequence = Value::List(int_values(&self.sequence));
        proof {
            lemma_model_parts(&nodes);
            lemma_model_parts(&relationships);
            lemma_model_parts(&sequence);
            assert(nodes.model()->List_0 =~= Seq::new(self.nodes@.len(), |i: int| self.nodes@[i].fields_model()));
            assert(relationships.model()->List_0 =~= Seq::new(
                self.relationships@.len(),
                |i: int| self.relationships@[i].fields_model(),
            ));
        }
        let v = field_map(vec![("nodes", nodes), ("relationships", relationships), ("sequence", sequence)]);
        assert(v.model()->Dictionary_0 =~= self.fields_model()->Dictionary_0);
        v
    }
}

impl BoltStructure for Path {
    open spec fn structure_model(&self) -> ValueModel {
        ValueModel::Structure(
            TYPE_PATH,
            seq![
                ValueModel::List(structure_models(self.nodes@)),
                ValueModel::List(structure_models(self.relationships@)),
                ValueModel::List(ints_model(self.sequence@)),
            ],
        )
    }

    open spec fn accepts(m: ValueModel) -> bool {
        &&& structure_fields(m, TYPE_PATH, 3)
        &&& fields_of(m)[0] matches ValueModel::List(a) && all_accepted::<Node>(a)
        &&& fields_of(m)[1] matches ValueModel::List(b) && all_accepted::<UnboundRelationship>(b)
        &&& fields_of(m)[2] matches ValueModel::List(c) && all_ints(c)
    }

    open spec fn read_from(m: ValueModel, t: Self) -> bool {
        t.structure_model() == m
    }

    open spec fn rejection(m: ValueModel) -> ErrorCode {
        if !structure_fields(m, TYPE_PATH, 3) {
            structure_error(m, TYPE_PATH, 3)
        } else if !(fields_of(m)[0] is List) {
            ErrorCode::UnexpectedValue
        } else if !all_accepted::<Node>(fields_of(m)[0]->List_0) {
            first_rejection::<Node>(fields_of(m)[0]->List_0)
        } else if !(fields_of(m)[1] is List) {
            ErrorCode::UnexpectedValue
        } else if !all_accepted::<UnboundRelationship>(fields_of(m)[1]->List_0) {
            first_rejection::<UnboundRelationship>(fields_of(m)[1]->List_0)
        } else {
            ErrorCode::UnexpectedValue
        }
    }

    proof fn lemma_accepts_own(&self) {
        assert forall|i: int| 0 <= i < self.nodes@.len() implies #[trigger] Node::accepts(
            structure_models(self.nodes@)[i],
        ) by {
            self.nodes@[i].lemma_accepts_own();
        }
        assert forall|i: int| 0 <= i < self.relationships@.len() implies #[trigger] UnboundRelationship::accepts(
            structure_models(self.relationships@)[i],
        ) by {
            self.relationships@[i].lemma_accepts_own();
        }
    }

    proof fn lemma_read_own(&self, t: Self) {
    }

    fn to_structure(&self) -> (v: Value)
        ensures
            v.model() == ValueModel::Structure(
                TYPE_PATH,
                seq![
                    ValueModel::List(structure_models(self.nodes@)),
                    ValueModel::List(structure_models(self.relationships@)),
                    ValueModel::List(ints_model(self.sequence@)),
                ],
            ),
    {
        let mut fields = Vec::new();
        fields.push(Value::List(structure_values(&self.nodes)));
        fields.push(Value::List(structure_values(&self.relationships)));
        fields.push(Value::List(int_values(&self.sequence)));
        let v = Value::Structure { signature: TYPE_PATH, fields };
        proof {
            lemma_model_parts(&v);
            lemma_model_parts(&fields@[0]);
            lemma_model_parts(&fields@[1]);
            lemma_model_parts(&fields@[2]);
            assert(models(fields@) =~= fields_of(self.structure_model()));
        }
        v
    }

    fn from_value(v: Value) -> (r: SerdeResult<Self>)
        ensures
            r matches Ok(t) ==> {
                &&& fields_of(v.model())[0] == ValueModel::List(structure_models(t.nodes@))
                &&& fields_of(v.model())[1] == ValueModel::List(structure_models(t.relationships@))
                &&& fields_of(v.model())[2] == ValueModel::List(ints_model(t.sequence@))
            },
    {
        let ghost m = v.model();
        let mut fields = take_fields(v, TYPE_PATH, 3)?;
        let nodes = into_structures::<Node>(into_list(take_first(&mut fields))?)?;
        let relationships = into_structures::<UnboundRelationship>(
            into_list(take_first(&mut fields))?,
        )?;
        let sequence = into_ints(into_list(take_first(&mut fields))?)?;
        let t = Path { nodes, relationships, sequence };
        proof {
            let a = fields_of(m)[0]->List_0;
            let b = fields_of(m)[1]->List_0;
            assert(structure_models(t.nodes@) =~= a);
            assert(structure_models(t.relationships@) =~= b);
            assert(fields_of(t.structure_model()) =~= fields_of(m));
        }
        Ok(t)
    }
}

} // verus!
