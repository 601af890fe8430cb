//! Bolt messages: the requests a client sends and the summaries a server
//! answers with.
use crate::constants::signature::{
    MSG_ACK_FAILURE, MSG_DISCARD_ALL, MSG_FAILURE, MSG_IGNORED, MSG_INIT, MSG_PULL_ALL, MSG_RECORD,
    MSG_RESET, MSG_RUN, MSG_SUCCESS,
};
use crate::error::{fails_with, ErrorCode, SerdeError, SerdeResult};
use crate::value::structure::{
    field_map, fields_of, into_list, key, into_map, into_string, structure_error, structure_fields, take_fields,
    take_first, BoltStructure, Single,
};
use crate::value::{dict_get, lemma_model_parts, models, Value, ValueMap, ValueModel};
use crate::error::text::{push_quoted, push_str, quoted_text};
use vstd::prelude::*;

verus! {

/// The structure of a message without fields.
pub open spec fn empty_structure(sig: u8) -> ValueModel {
    ValueModel::Structure(sig, Seq::empty())
}

/// A structure of the given signature without fields.
fn empty_structure_value(sig: u8) -> (v: Value)
    ensures
        v.model() == empty_structure(sig),
{
    let v = Value::Structure { signature: sig, fields: Vec::new() };
    proof {
        lemma_model_parts(&v);
        assert(models(Seq::<Value>::empty()) =~= Seq::<ValueModel>::empty());
    }
    v
}

/// The request to acknowledge a failure.
#[derive(Debug, PartialEq, Eq, Structural)]
pub struct AckFailure;

impl BoltStructure for AckFailure {
    open spec fn structure_model(&self) -> ValueModel {
        empty_structure(MSG_ACK_FAILURE)
    }

    open spec fn accepts(m: ValueModel) -> bool {
        structure_fields(m, MSG_ACK_FAILURE, 0)
    }

    open spec fn read_from(m: ValueModel, t: Self) -> bool {
        true
    }

    open spec fn rejection(m: ValueModel) -> ErrorCode {
        structure_error(m, MSG_ACK_FAILURE, 0)
    }

    proof fn lemma_accepts_own(&self) {
    }

    proof fn lemma_read_own(&self, t: Self) {
    }

    fn to_structure(&self) -> (v: Value) {
        empty_structure_value(MSG_ACK_FAILURE)
    }

    fn from_value(v: Value) -> (r: SerdeResult<Self>) {
        take_fields(v, MSG_ACK_FAILURE, 0)?;
        Ok(AckFailure)
    }
}

/// The request to discard all pending results.
#[derive(Debug, PartialEq, Eq, Structural)]
pub struct DiscardAll;

impl BoltStructure for DiscardAll {
    open spec fn structure_model(&self) -> ValueModel {
        empty_structure(MSG_DISCARD_ALL)
    }

    open spec fn accepts(m: ValueModel) -> bool {
        structure_fields(m, MSG_DISCARD_ALL, 0)
    }

    open spec fn read_from(m: ValueModel, t: Self) -> bool {
        true
    }

    open spec fn rejection(m: ValueModel) -> ErrorCode {
        structure_error(m, MSG_DISCARD_ALL, 0)
    }

    proof fn lemma_accepts_own(&self) {
    }

    proof fn lemma_read_own(&self, t: Self) {
    }

    fn to_structure(&self) -> (v: Value) {
        empty_structure_value(MSG_DISCARD_ALL)
    }

    fn from_value(v: Value) -> (r: SerdeResult<Self>) {
        take_fields(v, MSG_DISCARD_ALL, 0)?;
        Ok(DiscardAll)
    }
}

/// The request to stream all pending results.
#[derive(Debug, PartialEq, Eq, Structural)]
pub struct PullAll;

impl BoltStructure for PullAll {
    open spec fn structure_model(&self) -> ValueModel {
        empty_structure(MSG_PULL_ALL)
    }

    open spec fn accepts(m: ValueModel) -> bool {
        structure_fields(m, MSG_PULL_ALL, 0)
    }

    open spec fn read_from(m: ValueModel, t: Self) -> bool {
        true
    }

    open spec fn rejection(m: ValueModel) -> ErrorCode {
        structure_error(m, MSG_PULL_ALL, 0)
    }

    proof fn lemma_accepts_own(&self) {
    }

    proof fn lemma_read_own(&self, t: Self) {
    }

    fn to_structure(&self) -> (v: Value) {
        empty_structure_value(MSG_PULL_ALL)
    }

    fn from_value(v: Value) -> (r: SerdeResult<Self>) {
        take_fields(v, MSG_PULL_ALL, 0)?;
        Ok(PullAll)
    }
}

/// The request to reset the session.
#[derive(Debug, PartialEq, Eq, Structural)]
pub struct Reset;

impl BoltStructure for Reset {
    open spec fn structure_model(&self) -> ValueModel {
        empty_structure(MSG_RESET)
    }

    open spec fn accepts(m: ValueModel) -> bool {
        structure_fields(m, MSG_RESET, 0)
    }

    open spec fn read_from(m: ValueModel, t: Self) -> bool {
        true
    }

    open spec fn rejection(m: ValueModel) -> ErrorCode {
        structure_error(m, MSG_RESET, 0)
    }

    proof fn lemma_accepts_own(&self) {
    }

    proof fn lemma_read_own(&self, t: Self) {
    }

    fn to_structure(&self) -> (v: Value) {
        empty_structure_value(MSG_RESET)
    }

    fn from_value(v: Value) -> (r: SerdeResult<Self>) {
        take_fields(v, MSG_RESET, 0)?;
        Ok(Reset)
    }
}

/// The summary of a request that was ignored.
#[derive(Debug, PartialEq, Eq, Structural)]
pub struct Ignored;

impl BoltStructure for Ignored {
    open spec fn structure_model(&self) -> ValueModel {
        empty_structure(MSG_IGNORED)
    }

    open spec fn accepts(m: ValueModel) -> bool {
        structure_fields(m, MSG_IGNORED, 0)
    }

    open spec fn read_from(m: ValueModel, t: Self) -> bool {
        true
    }

    open spec fn rejection(m: ValueModel) -> ErrorCode {
        structure_error(m, MSG_IGNORED, 0)
    }

    proof fn lemma_accepts_own(&self) {
    }

    proof fn lemma_read_own(&self, t: Self) {
    }

    fn to_structure(&self) -> (v: Value) {
        empty_structure_value(MSG_IGNORED)
    }

    fn from_value(v: Value) -> (r: SerdeResult<Self>) {
        take_fields(v, MSG_IGNORED, 0)?;
        Ok(Ignored)
    }
}

/// The credentials of a basic authentication, read from a dictionary: the
/// strings under the keys `scheme`, `principal` and `credentials`; other
/// keys are ignored.
pub open spec fn auth_fields(m: ValueModel) -> Option<(Seq<char>, Seq<char>, Seq<char>)> {
    match m {
        ValueModel::Dictionary(es) => match (
            dict_get(es, key("scheme")),
            dict_get(es, key("principal")),
            dict_get(es, key("credentials")),
        ) {
            (
                Some(ValueModel::String(a)),
                Some(ValueModel::String(b)),
                Some(ValueModel::String(c)),
            ) => Some((a, b, c)),
            _ => None,
        },
        _ => None,
    }
}

/// The error of reading a value that holds no string under the key.
pub open spec fn string_entry_error(es: Seq<(Seq<char>, ValueModel)>, k: Seq<char>) -> ErrorCode {
    match dict_get(es, k) {
        None => ErrorCode::MissingKey,
        Some(_) => ErrorCode::UnexpectedValue,
    }
}

/// The error of reading a value that holds no basic authentication.
pub open spec fn auth_rejection(m: ValueModel) -> ErrorCode {
    match m {
        ValueModel::Dictionary(es) => if !(dict_get(es, key("scheme")) matches Some(ValueModel::String(_))) {
            string_entry_error(es, key("scheme"))
        } else if !(dict_get(es, key("principal")) matches Some(ValueModel::String(_))) {
            string_entry_error(es, key("principal"))
        } else {
            string_entry_error(es, key("credentials"))
        },
        _ => ErrorCode::UnexpectedValue,
    }
}

/// The string under the key.
fn string_entry(m: &ValueMap, k: &str) -> (r: SerdeResult<String>)
    ensures
        dict_get(m.model(), k@) matches Some(ValueModel::String(s)) ==> (r matches Ok(t) && t@ == s),
        !(dict_get(m.model(), k@) matches Some(ValueModel::String(_))) ==> fails_with(
            r,
            string_entry_error(m.model(), k@),
        ),
{
    let k = k.to_owned();
    match m.get(&k) {
        Some(Value::String(s)) => Ok(s.clone()),
        Some(_) => Err(SerdeError::create(ErrorCode::UnexpectedValue)),
        None => Err(SerdeError::create(ErrorCode::MissingKey)),
    }
}

/// Basic authentication: a scheme, a user and a password, travelling as a
/// dictionary of three entries.
#[derive(Debug, PartialEq)]
pub struct BasicAuth {
    pub scheme: String,
    pub principal: String,
    pub credentials: String,
}

impl BasicAuth {
    /// The dictionary the credentials travel as.
    pub open spec fn auth_model(&self) -> ValueModel {
        ValueModel::Dictionary(
            seq![
                (key("scheme"), ValueModel::String(self.scheme@)),
                (key("principal"), ValueModel::String(self.principal@)),
                (key("credentials"), ValueModel::String(self.credentials@)),
            ],
        )
    }

    /// The dictionary's credentials are the three strings.
    pub proof fn lemma_auth_fields(&self)
        ensures
            auth_fields(self.auth_model()) == Some((self.scheme@, self.principal@, self.credentials@)),
    {
        reveal_with_fuel(dict_get, 4);
        assert(key("scheme") != key("principal")) by {
            reveal_strlit("scheme");
            reveal_strlit("principal");
            assert(key("scheme").len() != key("principal").len());
        }
        assert(key("scheme") != key("credentials")) by {
            reveal_strlit("scheme");
            reveal_strlit("credentials");
            assert(key("scheme").len() != key("credentials").len());
        }
        assert(key("principal") != key("credentials")) by {
            reveal_strlit("principal");
            reveal_strlit("credentials");
            assert(key("principal").len() != key("credentials").len());
        }
    }

    /// Basic authentication of the user with the password.
    pub fn new(user: String, password: String) -> (a: Self)
        ensures
            a.scheme@ == key("basic"),
            a.principal@ == user@,
            a.credentials@ == password@,
    {
        BasicAuth { scheme: "basic".to_owned(), principal: user, credentials: password }
    }

    /// The dictionary the credentials travel as.
    pub fn to_value(&self) -> (v: Value)
        ensures
            v.model() == self.auth_model(),
    {
        let mut entries = Vec::new();
        entries.push(("scheme".to_owned(), Value::String(self.scheme.clone())));
        entries.push(("principal".to_owned(), Value::String(self.principal.clone())));
        entries.push(("credentials".to_owned(), Value::String(self.credentials.clone())));
        let v = Value::Dictionary(ValueMap { entries });
        proof {
            lemma_model_parts(&v);
            let m = ValueMap { entries };
            assert(m.model()[0] == (key("scheme"), ValueModel::String(self.scheme@)));
            assert(m.model()[1] == (key("principal"), ValueModel::String(self.principal@)));
            assert(m.model()[2] == (key("credentials"), ValueModel::String(self.credentials@)));
            assert(m.model() =~= self.auth_model()->Dictionary_0);
        }
        v
    }

    /// The credentials as text, the password hidden: `BasicAuth { scheme:
    /// "…", principal: "…", credentials: "..." }`.
    pub open spec fn described(&self) -> Seq<char> {
        "BasicAuth { scheme: "@ + quoted_text(self.scheme@) + ", principal: "@ + quoted_text(
            self.principal@,
        ) + ", credentials: \"...\" }"@
    }

    /// The credentials as text, the password hidden.
    pub fn describe(&self) -> (s: String)
        ensures
            s@ == self.described(),
    {
        let mut out = String::new();
        push_str(&mut out, "BasicAuth { scheme: ");
        push_quoted(&mut out, self.scheme.as_str());
        push_str(&mut out, ", principal: ");
        push_quoted(&mut out, self.principal.as_str());
        push_str(&mut out, ", credentials: \"...\" }");
        assert(out@ =~= self.described());
        out
    }

    /// Reads the credentials from a dictionary.
    pub fn from_value(v: Value) -> (r: SerdeResult<Self>)
        ensures
            r is Ok <==> auth_fields(v.model()) is Some,
            r matches Ok(a) ==> auth_fields(v.model()) == Some(
                (a.scheme@, a.principal@, a.credentials@),
            ),
            r is Err ==> fails_with(r, auth_rejection(v.model())),
    {
        let m = into_map(v)?;
        let scheme = string_entry(&m, "scheme")?;
        let principal = string_entry(&m, "principal")?;
        let credentials = string_entry(&m, "credentials")?;
        Ok(BasicAuth { scheme, principal, credentials })
    }
}

/// The request that opens a session: the client's name and its
/// credentials.
#[derive(Debug, PartialEq)]
pub struct Init {
    pub client: String,
    pub auth: BasicAuth,
}

impl Init {
    /// The request of the client to open a session for the user.
    pub fn new(client: String, user: String, password: String) -> (i: Self)
        ensures
            i.client@ == client@,
            i.auth.scheme@ == key("basic"),
            i.auth.principal@ == user@,
            i.auth.credentials@ == password@,
    {
        Init { client, auth: BasicAuth::new(user, password) }
    }
}

impl Init {
    /// The request as text, the password hidden: `Init { client: "…",
    /// auth: BasicAuth { … } }`.
    pub open spec fn described(&self) -> Seq<char> {
        "Init { client: "@ + quoted_text(self.client@) + ", auth: "@ + self.auth.described() + " }"@
    }

    /// The request as text, the password hidden.
    pub fn describe(&self) -> (s: String)
        ensures
            s@ == self.described(),
    {
        let mut out = String::new();
        push_str(&mut out, "Init { client: ");
        push_quoted(&mut out, self.client.as_str());
        push_str(&mut out, ", auth: ");
        let auth = self.auth.describe();
        push_str(&mut out, auth.as_str());
        push_str(&mut out, " }");
        assert(out@ =~= self.described());
        out
    }

    /// The fields by name.
    pub open spec fn fields_model(&self) -> ValueModel {
        ValueModel::Dictionary(
            seq![
                (key("client"), ValueModel::String(self.client@)),
                (key("auth"), self.auth.auth_model()),
            ],
        )
    }

    /// The fields by name, as a dictionary.
    pub fn into_value(&self) -> (v: Value)
        ensures
            v.model() == self.fields_model(),
    {
        let v = field_map(
            vec![
                ("client", Value::String(self.client.clone())),
                ("auth", self.auth.to_value()),
            ],
        );
        assert(v.model()->Dictionary_0 =~= self.fields_model()->Dictionary_0);
        v
    }
}

impl BoltStructure for Init {
    open spec fn structure_model(&self) -> ValueModel {
        ValueModel::Structure(MSG_INIT, seq![ValueModel::String(self.client@), self.auth.auth_model()])
    }

    open spec fn accepts(m: ValueModel) -> bool {
        &&& structure_fields(m, MSG_INIT, 2)
        &&& fields_of(m)[0] is String
        &&& auth_fields(fields_of(m)[1]) is Some
    }

    open spec fn read_from(m: ValueModel, t: Self) -> bool {
        &&& ValueModel::String(t.client@) == fields_of(m)[0]
        &&& auth_fields(fields_of(m)[1]) == Some((t.auth.scheme@, t.auth.principal@, t.auth.credentials@))
    }

    open spec fn rejection(m: ValueModel) -> ErrorCode {
        if !structure_fields(m, MSG_INIT, 2) {
            structure_error(m, MSG_INIT, 2)
        } else if !(fields_of(m)[0] is String) {
            ErrorCode::UnexpectedValue
        } else {
            auth_rejection(fields_of(m)[1])
        }
    }

    proof fn lemma_accepts_own(&self) {
        self.auth.lemma_auth_fields();
    }

    proof fn lemma_read_own(&self, t: Self) {
        self.auth.lemma_auth_fields();
        assert(t.auth.auth_model() == self.auth.auth_model());
    }

    fn to_structure(&self) -> (v: Value)
        ensures
            v.model() == ValueModel::Structure(
                MSG_INIT,
                seq![ValueModel::String(self.client@), self.auth.auth_model()],
            ),
    {
        let mut fields = Vec::new();
        fields.push(Value::String(self.client.clone()));
        fields.push(self.auth.to_value());
        let v = Value::Structure { signature: MSG_INIT, fields };
        proof {
            lemma_model_parts(&v);
            assert(models(fields@) =~= fields_of(self.structure_model()));
        }
        v
    }

    fn from_value(v: Value) -> (r: SerdeResult<Self>)
        ensures
            r matches Ok(t) ==> {
                &&& fields_of(v.model())[0] == ValueModel::String(t.client@)
                &&& auth_fields(fields_of(v.model())[1]) == Some(
                    (t.auth.scheme@, t.auth.principal@, t.auth.credentials@),
                )
            },
    {
        let mut fields = take_fields(v, MSG_INIT, 2)?;
        let client = into_string(take_first(&mut fields))?;
        let auth = BasicAuth::from_value(take_first(&mut fields))?;
        Ok(Init { client, auth })
    }
}

/// The request to run a statement with parameters.
#[derive(Debug, PartialEq)]
pub struct Run {
    pub statement: String,
    pub parameters: ValueMap,
}

impl Run {
    /// The fields by name.
    pub open spec fn fields_model(&self) -> ValueModel {
        ValueModel::Dictionary(
            seq![
                (key("statement"), ValueModel::String(self.statement@)),
                (key("parameters"), ValueModel::Dictionary(self.parameters.model())),
            ],
        )
    }

    /// The fields by name, as a dictionary.
    pub fn into_value(&self) -> (v: Value)
        ensures
            v.model() == self.fields_model(),
    {
        let parameters = Value::Dictionary(self.parameters.deep_clone());
        proof {
            lemma_model_parts(&parameters);
        }
        let v = field_map(
            vec![
                ("statement", Value::String(self.statement.clone())),
                ("parameters", parameters),
            ],
        );
        assert(v.model()->Dictionary_0 =~= self.fields_model()->Dictionary_0);
        v
    }
}

impl BoltStructure for Run {
    open spec fn structure_model(&self) -> ValueModel {
        ValueModel::Structure(
            MSG_RUN,
            seq![ValueModel::String(self.statement@), ValueModel::Dictionary(self.parameters.model())],
        )
    }

    open spec fn accepts(m: ValueModel) -> bool {
        &&& structure_fields(m, MSG_RUN, 2)
        &&& fields_of(m)[0] is String
        &&& fields_of(m)[1] is Dictionary
    }

    open spec fn read_from(m: ValueModel, t: Self) -> bool {
        t.structure_model() == m
    }

    open spec fn rejection(m: ValueModel) -> ErrorCode {
        if !structure_fields(m, MSG_RUN, 2) {
            structure_error(m, MSG_RUN, 2)
        } else {
            ErrorCode::UnexpectedValue
        }
    }

    proof fn lemma_accepts_own(&self) {
    }

    proof fn lemma_read_own(&self, t: Self) {
    }

    fn to_structure(&self) -> (v: Value)
        ensures
            v.model() == ValueModel::Structure(
                MSG_RUN,
                seq![ValueModel::String(self.statement@), ValueModel::Dictionary(self.parameters.model())],
            ),
    {
        let mut fields = Vec::new();
        fields.push(Value::String(self.statement.clone()));
        fields.push(Value::Dictionary(self.parameters.deep_clone()));
        let v = Value::Structure { signature: MSG_RUN, fields };
        proof {
            lemma_model_parts(&v);
            lemma_model_parts(&fields@[1]);
            assert(models(fields@) =~= fields_of(self.structure_model()));
        }
        v
    }

    fn from_value(v: Value) -> (r: SerdeResult<Self>)
        ensures
            r matches Ok(t) ==> {
                &&& fields_of(v.model())[0] == ValueModel::String(t.statement@)
                &&& fields_of(v.model())[1] == ValueModel::Dictionary(t.parameters.model())
            },
    {
        let ghost m = v.model();
        let mut fields = take_fields(v, MSG_RUN, 2)?;
        let statement = into_string(take_first(&mut fields))?;
        let parameters = into_map(take_first(&mut fields))?;
        let t = Run { statement, parameters };
        assert(fields_of(t.structure_model()) =~= fields_of(m));
        Ok(t)
    }
}

/// The summary of a request that succeeded, with its metadata.
#[derive(Debug, PartialEq)]
pub struct Success {
    pub metadata: ValueMap,
}

impl Success {
    /// The fields by name.
    pub open spec fn fields_model(&self) -> ValueModel {
        ValueModel::Dictionary(
            seq![
                (key("metadata"), ValueModel::Dictionary(self.metadata.model())),
            ],
        )
    }

    /// The fields by name, as a dictionary.
    pub fn into_value(&self) -> (v: Value)
        ensures
            v.model() == self.fields_model(),
    {
        let metadata = Value::Dictionary(self.metadata.deep_clone());
        proof {
            lemma_model_parts(&metadata);
        }
        let v = field_map(
            vec![
                ("metadata", metadata),
            ],
        );
        assert(v.model()->Dictionary_0 =~= self.fields_model()->Dictionary_0);
        v
    }
}

impl BoltStructure for Success {
    open spec fn structure_model(&self) -> ValueModel {
        ValueModel::Structure(MSG_SUCCESS, seq![ValueModel::Dictionary(self.metadata.model())])
    }

    open spec fn accepts(m: ValueModel) -> bool {
        &&& structure_fields(m, MSG_SUCCESS, 1)
        &&& fields_of(m)[0] is Dictionary
    }

    open spec fn read_from(m: ValueModel, t: Self) -> bool {
        t.structure_model() == m
    }

    open spec fn rejection(m: ValueModel) -> ErrorCode {
        if !structure_fields(m, MSG_SUCCESS, 1) {
            structure_error(m, MSG_SUCCESS, 1)
        } else {
            ErrorCode::UnexpectedValue
        }
    }

    proof fn lemma_accepts_own(&self) {
    }

    proof fn lemma_read_own(&self, t: Self) {
    }

    fn to_structure(&self) -> (v: Value) {
        let mut fields = Vec::new();
        fields.push(Value::Dictionary(self.metadata.deep_clone()));
        let v = Value::Structure { signature: MSG_SUCCESS, fields };
        proof {
            lemma_model_parts(&v);
            lemma_model_parts(&fields@[0]);
            assert(models(fields@) =~= fields_of(self.structure_model()));
        }
        v
    }

    fn from_value(v: Value) -> (r: SerdeResult<Self>) {
        let ghost m = v.model();
        let fields = take_fields(v, MSG_SUCCESS, 1)?;
        let metadata = into_map(Single::from_fields(fields)?.value())?;
        let t = Success { metadata };
        assert(fields_of(t.structure_model()) =~= fields_of(m));
        Ok(t)
    }
}

/// The summary of a request that failed, with its metadata.
#[derive(Debug, PartialEq)]
pub struct Failure {
    pub metadata: ValueMap,
}

impl BoltStructure for Failure {
    open spec fn structure_model(&self) -> ValueModel {
        ValueModel::Structure(MSG_FAILURE, seq![ValueModel::Dictionary(self.metadata.model())])
    }

    open spec fn accepts(m: ValueModel) -> bool {
        &&& structure_fields(m, MSG_FAILURE, 1)
        &&& fields_of(m)[0] is Dictionary
    }

    open spec fn read_from(m: ValueModel, t: Self) -> bool {
        t.structure_model() == m
    }

    open spec fn rejection(m: ValueModel) -> ErrorCode {
        if !structure_fields(m, MSG_FAILURE, 1) {
            structure_error(m, MSG_FAILURE, 1)
        } else {
            ErrorCode::UnexpectedValue
        }
    }

    proof fn lemma_accepts_own(&self) {
    }

    proof fn lemma_read_own(&self, t: Self) {
    }

    fn to_structure(&self) -> (v: Value) {
        let mut fields = Vec::new();
        fields.push(Value::Dictionary(self.metadata.deep_clone()));
        let v = Value::Structure { signature: MSG_FAILURE, fields };
        proof {
            lemma_model_parts(&v);
            lemma_model_parts(&fields@[0]);
            assert(models(fields@) =~= fields_of(self.structure_model()));
        }
        v
    }

    fn from_value(v: Value) -> (r: SerdeResult<Self>) {
        let ghost m = v.model();
        let fields = take_fields(v, MSG_FAILURE, 1)?;
        let metadata = into_map(Single::from_fields(fields)?.value())?;
        let t = Failure { metadata };
        assert(fields_of(t.structure_model()) =~= fields_of(m));
        Ok(t)
    }
}

/// A record of a result: its field values.
#[derive(Debug, PartialEq)]
pub struct Record {
    pub fields: Vec<Value>,
}

impl Record {
    /// The fields by name.
    pub open spec fn fields_model(&self) -> ValueModel {
        ValueModel::Dictionary(
            seq![
                (key("fields"), ValueModel::List(models(self.fields@))),
            ],
        )
    }

    /// The fields by name, as a dictionary.
    pub fn into_value(&self) -> (v: Value)
        ensures
            v.model() == self.fields_model(),
    {
        let fields = Value::List(crate::value::clone_values(&self.fields));
        proof {
            lemma_model_parts(&fields);
        }
        let v = field_map(
            vec![
                ("fields", fields),
            ],
        );
        assert(v.model()->Dictionary_0 =~= self.fields_model()->Dictionary_0);
        v
    }
}

impl BoltStructure for Record {
    open spec fn structure_model(&self) -> ValueModel {
        ValueModel::Structure(MSG_RECORD, seq![ValueModel::List(models(self.fields@))])
    }

    open spec fn accepts(m: ValueModel) -> bool {
        &&& structure_fields(m, MSG_RECORD, 1)
        &&& fields_of(m)[0] is List
    }

    open spec fn read_from(m: ValueModel, t: Self) -> bool {
        t.structure_model() == m
    }

    open spec fn rejection(m: ValueModel) -> ErrorCode {
        if !structure_fields(m, MSG_RECORD, 1) {
            structure_error(m, MSG_RECORD, 1)
        } else {
            ErrorCode::UnexpectedValue
        }
    }

    proof fn lemma_accepts_own(&self) {
    }

    proof fn lemma_read_own(&self, t: Self) {
    }

    fn to_structure(&self) -> (v: Value) {
        let mut fields = Vec::new();
        fields.push(Value::List(crate::value::clone_values(&self.fields)));
        let v = Value::Structure { signature: MSG_RECORD, fields };
        proof {
            lemma_model_parts(&v);
            lemma_model_parts(&fields@[0]);
            assert(models(fields@) =~= fields_of(self.structure_model()));
        }
        v
    }

    fn from_value(v: Value) -> (r: SerdeResult<Self>) {
        let ghost m = v.model();
        let fields = take_fields(v, MSG_RECORD, 1)?;
        let items = into_list(Single::from_fields(fields)?.value())?;
        let t = Record { fields: items };
        assert(fields_of(t.structure_model()) =~= fields_of(m));
        Ok(t)
    }
}

/// The signature of the model, a structure.
pub open spec fn signature_of(m: ValueModel) -> u8 {
    m->Structure_0
}

/// The signature of a structure; `None` for any other value.
fn signature(v: &Value) -> (r: Option<u8>)
    ensures
        v.model() matches ValueModel::Structure(s, _) ==> r == Some(s),
        !(v.model() is Structure) ==> r is None,
{
    match v {
        Value::Structure { signature, .. } => Some(*signature),
        _ => None,
    }
}

/// A request message, told apart by its signature.
#[derive(Debug, PartialEq)]
pub enum RequestMessage {
    Init(Init),
    AckFailure(AckFailure),
    Reset(Reset),
    Run(Run),
    DiscardAll(DiscardAll),
    PullAll(PullAll),
}

impl BoltStructure for RequestMessage {
    open spec fn structure_model(&self) -> ValueModel {
        match self {
            RequestMessage::Init(v) => v.structure_model(),
            RequestMessage::AckFailure(v) => v.structure_model(),
            RequestMessage::Reset(v) => v.structure_model(),
            RequestMessage::Run(v) => v.structure_model(),
            RequestMessage::DiscardAll(v) => v.structure_model(),
            RequestMessage::PullAll(v) => v.structure_model(),
        }
    }

    open spec fn accepts(m: ValueModel) -> bool {
        match m {
            ValueModel::Structure(s, _) => if s == MSG_INIT {
                Init::accepts(m)
            } else if s == MSG_ACK_FAILURE {
                AckFailure::accepts(m)
            } else if s == MSG_RESET {
                Reset::accepts(m)
            } else if s == MSG_RUN {
                Run::accepts(m)
            } else if s == MSG_DISCARD_ALL {
                DiscardAll::accepts(m)
            } else if s == MSG_PULL_ALL {
                PullAll::accepts(m)
            } else {
                false
            },
            _ => false,
        }
    }

    open spec fn read_from(m: ValueModel, t: Self) -> bool {
        m is Structure && match t {
            RequestMessage::Init(v) => signature_of(m) == MSG_INIT && Init::read_from(m, v),
            RequestMessage::AckFailure(v) => signature_of(m) == MSG_ACK_FAILURE && AckFailure::read_from(
                m,
                v,
            ),
            RequestMessage::Reset(v) => signature_of(m) == MSG_RESET && Reset::read_from(m, v),
            RequestMessage::Run(v) => signature_of(m) == MSG_RUN && Run::read_from(m, v),
            RequestMessage::DiscardAll(v) => signature_of(m) == MSG_DISCARD_ALL && DiscardAll::read_from(
                m,
                v,
            ),
            RequestMessage::PullAll(v) => signature_of(m) == MSG_PULL_ALL && PullAll::read_from(m, v),
        }
    }

    open spec fn rejection(m: ValueModel) -> ErrorCode {
        match m {
            ValueModel::Structure(s, _) => if s == MSG_INIT {
                Init::rejection(m)
            } else if s == MSG_ACK_FAILURE {
                AckFailure::rejection(m)
            } else if s == MSG_RESET {
                Reset::rejection(m)
            } else if s == MSG_RUN {
                Run::rejection(m)
            } else if s == MSG_DISCARD_ALL {
                DiscardAll::rejection(m)
            } else if s == MSG_PULL_ALL {
                PullAll::rejection(m)
            } else {
                ErrorCode::UnknownSignature(s)
            },
            _ => ErrorCode::UnexpectedValue,
        }
    }

    proof fn lemma_accepts_own(&self) {
        match self {
            RequestMessage::Init(v) => v.lemma_accepts_own(),
            RequestMessage::AckFailure(v) => v.lemma_accepts_own(),
            RequestMessage::Reset(v) => v.lemma_accepts_own(),
            RequestMessage::Run(v) => v.lemma_accepts_own(),
            RequestMessage::DiscardAll(v) => v.lemma_accepts_own(),
            RequestMessage::PullAll(v) => v.lemma_accepts_own(),
        }
    }

    proof fn lemma_read_own(&self, t: Self) {
        match (self, t) {
            (RequestMessage::Init(a), RequestMessage::Init(b)) => a.lemma_read_own(b),
            (RequestMessage::Run(a), RequestMessage::Run(b)) => a.lemma_read_own(b),
            _ => {},
        }
    }

    fn to_structure(&self) -> (v: Value) {
        match self {
            RequestMessage::Init(v) => v.to_structure(),
            RequestMessage::AckFailure(v) => v.to_structure(),
            RequestMessage::Reset(v) => v.to_structure(),
            RequestMessage::Run(v) => v.to_structure(),
            RequestMessage::DiscardAll(v) => v.to_structure(),
            RequestMessage::PullAll(v) => v.to_structure(),
        }
    }

    fn from_value(v: Value) -> (r: SerdeResult<Self>) {
        match signature(&v) {
            Some(s) => if s == MSG_INIT {
                Ok(RequestMessage::Init(Init::from_value(v)?))
            } else if s == MSG_ACK_FAILURE {
                Ok(RequestMessage::AckFailure(AckFailure::from_value(v)?))
            } else if s == MSG_RESET {
                Ok(RequestMessage::Reset(Reset::from_value(v)?))
            } else if s == MSG_RUN {
                Ok(RequestMessage::Run(Run::from_value(v)?))
            } else if s == MSG_DISCARD_ALL {
                Ok(RequestMessage::DiscardAll(DiscardAll::from_value(v)?))
            } else if s == MSG_PULL_ALL {
                Ok(RequestMessage::PullAll(PullAll::from_value(v)?))
            } else {
                Err(SerdeError::create(ErrorCode::UnknownSignature(s)))
            },
            None => Err(SerdeError::create(ErrorCode::UnexpectedValue)),
        }
    }
}

/// A summary message, told apart by its signature.
#[derive(Debug, PartialEq)]
pub enum SummaryMessage {
    Success(Success),
    Ignored(Ignored),
    Failure(Failure),
}

impl BoltStructure for SummaryMessage {
    open spec fn structure_model(&self) -> ValueModel {
        match self {
            SummaryMessage::Success(v) => v.structure_model(),
            SummaryMessage::Ignored(v) => v.structure_model(),
            SummaryMessage::Failure(v) => v.structure_model(),
        }
    }

    open spec fn accepts(m: ValueModel) -> bool {
        match m {
            ValueModel::Structure(s, _) => if s == MSG_SUCCESS {
                Success::accepts(m)
            } else if s == MSG_IGNORED {
                Ignored::accepts(m)
            } else if s == MSG_FAILURE {
                Failure::accepts(m)
            } else {
                false
            },
            _ => false,
        }
    }

    open spec fn read_from(m: ValueModel, t: Self) -> bool {
        m is Structure && match t {
            SummaryMessage::Success(v) => signature_of(m) == MSG_SUCCESS && Success::read_from(m, v),
            SummaryMessage::Ignored(v) => signature_of(m) == MSG_IGNORED && Ignored::read_from(m, v),
            SummaryMessage::Failure(v) => signature_of(m) == MSG_FAILURE && Failure::read_from(m, v),
        }
    }

    open spec fn rejection(m: ValueModel) -> ErrorCode {
        match m {
            ValueModel::Structure(s, _) => if s == MSG_SUCCESS {
                Success::rejection(m)
            } else if s == MSG_IGNORED {
                Ignored::rejection(m)
            } else if s == MSG_FAILURE {
                Failure::rejection(m)
            } else {
                ErrorCode::UnknownSignature(s)
            },
            _ => ErrorCode::UnexpectedValue,
        }
    }

    proof fn lemma_accepts_own(&self) {
        match self {
            SummaryMessage::Success(v) => v.lemma_accepts_own(),
            SummaryMessage::Ignored(v) => v.lemma_accepts_own(),
            SummaryMessage::Failure(v) => v.lemma_accepts_own(),
        }
    }

    proof fn lemma_read_own(&self, t: Self) {
    }

    fn to_structure(&self) -> (v: Value) {
        match self {
            SummaryMessage::Success(v) => v.to_structure(),
            SummaryMessage::Ignored(v) => v.to_structure(),
            SummaryMessage::Failure(v) => v.to_structure(),
        }
    }

    fn from_value(v: Value) -> (r: SerdeResult<Self>) {
        match signature(&v) {
            Some(s) => if s == MSG_SUCCESS {
                Ok(SummaryMessage::Success(Success::from_value(v)?))
            } else if s == MSG_IGNORED {
                Ok(SummaryMessage::Ignored(Ignored::from_value(v)?))
            } else if s == MSG_FAILURE {
                Ok(SummaryMessage::Failure(Failure::from_value(v)?))
            } else {
                Err(SerdeError::create(ErrorCode::UnknownSignature(s)))
            },
            None => Err(SerdeError::create(ErrorCode::UnexpectedValue)),
        }
    }
}

} // verus!
