//! Sieve scripts: the outcome of a test run, the routing of the parameters
//! of a test request, and the layout of a stored script.

use vstd::prelude::*;
use vstd::slice::slice_subrange;
use crate::text::{chars_of, has_prefix, lowercase, same_text, starts_with, to_lowercase};

verus! {

/// A part of the SMTP envelope that a script may read or set.
#[derive(Clone, Copy, Debug, PartialEq, Eq, Structural)]
pub enum Envelope {
    From,
    To,
    Orcpt,
    Ret,
    Notify,
    Envid,
    ByMode,
    ByTrace,
    ByTimeAbsolute,
    ByTimeRelative,
}

/// A change that a script asks for.
#[derive(Clone, Debug)]
pub enum ScriptModification {
    SetEnvelope { name: Envelope, value: String },
    AddHeader { name: String, value: String },
}

/// How a script run ended.
#[derive(Clone, Debug)]
pub enum ScriptResult {
    Accept { modifications: Vec<ScriptModification> },
    Replace { message: Vec<u8>, modifications: Vec<ScriptModification> },
    Reject(String),
    Discard,
}

/// The answer to a request for a test run.
#[derive(Clone, Debug)]
pub enum Response {
    Accept { modifications: Vec<ScriptModification> },
    Replace { message: String, modifications: Vec<ScriptModification> },
    Reject { reason: String },
    Discard,
}

/// The text of a message that may hold bytes that are no UTF-8: each such
/// stretch stands as a replacement character.
///
/// This is what `String::from_utf8_lossy` returns.
pub uninterp spec fn lossy_text(bytes: Seq<u8>) -> Seq<char>;

/// Trusted: `String::from_utf8_lossy`, whose result is named [`lossy_text`].
#[verifier::external_body]
pub(crate) fn into_string(bytes: &Vec<u8>) -> (r: String)
    ensures
        r@ == lossy_text(bytes@),
{
    String::from_utf8_lossy(bytes).into_owned()
}

impl Response {
    /// The answer that reports the outcome `result`: the same outcome, with
    /// a replaced message as text.
    pub fn from_result(result: ScriptResult) -> (r: Response)
        ensures
            match result {
                ScriptResult::Accept { modifications } => r == (Response::Accept { modifications }),
                ScriptResult::Replace { message, modifications } => r matches Response::Replace {
                    message: text,
                    modifications: kept,
                } && text@ == lossy_text(message@) && kept == modifications,
                ScriptResult::Reject(reason) => r == (Response::Reject { reason }),
                ScriptResult::Discard => r == Response::Discard,
            },
    {
        match result {
            ScriptResult::Accept { modifications } => Response::Accept { modifications },
            ScriptResult::Replace { message, modifications } => Response::Replace {
                message: into_string(&message),
                modifications,
            },
            ScriptResult::Reject(reason) => Response::Reject { reason },
            ScriptResult::Discard => Response::Discard,
        }
    }
}

/// What a parameter of a test request stands for.
#[derive(Clone, Debug)]
pub enum Parameter {
    /// One more envelope recipient, in lower case.
    Recipient(String),
    /// A part of the envelope and its value.
    Envelope(Envelope, String),
    /// A script variable and its value.
    Variable(String, String),
}

/// The mathematical value of a [`Parameter`].
pub enum ParameterView {
    Recipient(Seq<char>),
    Envelope(Envelope, Seq<char>),
    Variable(Seq<char>, Seq<char>),
}

impl View for Parameter {
    type V = ParameterView;

    open spec fn view(&self) -> ParameterView {
        match *self {
            Parameter::Recipient(value) => ParameterView::Recipient(value@),
            Parameter::Envelope(name, value) => ParameterView::Envelope(name, value@),
            Parameter::Variable(name, value) => ParameterView::Variable(name@, value@),
        }
    }
}

/// The part of the envelope that a parameter name stands for.
pub open spec fn envelope_of(key: Seq<char>) -> Option<Envelope> {
    if key == "env_from"@ {
        Some(Envelope::From)
    } else if key == "env_orcpt"@ {
        Some(Envelope::Orcpt)
    } else if key == "env_ret"@ {
        Some(Envelope::Ret)
    } else if key == "env_notify"@ {
        Some(Envelope::Notify)
    } else if key == "env_id"@ {
        Some(Envelope::Envid)
    } else if key == "env_bym"@ {
        Some(Envelope::ByMode)
    } else if key == "env_byt"@ {
        Some(Envelope::ByTrace)
    } else if key == "env_byta"@ {
        Some(Envelope::ByTimeAbsolute)
    } else if key == "env_bytr"@ {
        Some(Envelope::ByTimeRelative)
    } else {
        None
    }
}

/// What the parameter `key` with the value `value` stands for: a recipient
/// where the name starts with `env_to`, a part of the envelope where the name
/// is that of one, and a variable of the name `key` else.
pub open spec fn routed(key: Seq<char>, value: Seq<char>) -> ParameterView {
    if starts_with(key, "env_to"@) {
        ParameterView::Recipient(lowercase(value))
    } else {
        match envelope_of(key) {
            Some(name) => ParameterView::Envelope(name, value),
            None => ParameterView::Variable(key, value),
        }
    }
}

impl Envelope {
    /// The part of the envelope that a parameter name stands for.
    pub fn from_key(key: &str) -> (r: Option<Envelope>)
        ensures
            r == envelope_of(key@),
    {
        if same_text(key, "env_from") {
            Some(Envelope::From)
        } else if same_text(key, "env_orcpt") {
            Some(Envelope::Orcpt)
        } else if same_text(key, "env_ret") {
            Some(Envelope::Ret)
        } else if same_text(key, "env_notify") {
            Some(Envelope::Notify)
        } else if same_text(key, "env_id") {
            Some(Envelope::Envid)
        } else if same_text(key, "env_bym") {
            Some(Envelope::ByMode)
        } else if same_text(key, "env_byt") {
            Some(Envelope::ByTrace)
        } else if same_text(key, "env_byta") {
            Some(Envelope::ByTimeAbsolute)
        } else if same_text(key, "env_bytr") {
            Some(Envelope::ByTimeRelative)
        } else {
            None
        }
    }
}

impl Parameter {
    /// Decides what the parameter `key` with the value `value` stands for.
    pub fn route(key: &str, value: &str) -> (r: Parameter)
        ensures
            r@ == routed(key@, value@),
    {
        if has_prefix(&chars_of(key), &chars_of("env_to")) {
            Parameter::Recipient(to_lowercase(value))
        } else {
            match Envelope::from_key(key) {
                Some(name) => Parameter::Envelope(name, value.to_owned()),
                None => Parameter::Variable(key.to_owned(), value.to_owned()),
            }
        }
    }
}

/// The source of a stored script: the bytes before `offset`, if the stored
/// bytes reach that far.
pub open spec fn source_part(stored: Seq<u8>, offset: int) -> Option<Seq<u8>> {
    if 0 <= offset <= stored.len() {
        Some(stored.subrange(0, offset))
    } else {
        None
    }
}

/// The compiled form of a stored script: the bytes from `offset` on, if the
/// stored bytes reach that far.
pub open spec fn compiled_part(stored: Seq<u8>, offset: int) -> Option<Seq<u8>> {
    if 0 <= offset <= stored.len() {
        Some(stored.subrange(offset, stored.len() as int))
    } else {
        None
    }
}

/// The bytes of an optional slice.
pub open spec fn bytes_of(s: Option<&[u8]>) -> Option<Seq<u8>> {
    match s {
        Some(s) => Some(s@),
        None => None,
    }
}

/// The source of a stored script whose compiled form starts at `offset`.
pub fn script_source(stored: &[u8], offset: usize) -> (r: Option<&[u8]>)
    ensures
        bytes_of(r) == source_part(stored@, offset as int),
{
    if offset <= stored.len() {
        Some(slice_subrange(stored, 0, offset))
    } else {
        None
    }
}

/// The compiled form of a stored script, which starts at `offset`.
pub fn script_compiled(stored: &[u8], offset: usize) -> (r: Option<&[u8]>)
    ensures
        bytes_of(r) == compiled_part(stored@, offset as int),
{
    if offset <= stored.len() {
        Some(slice_subrange(stored, offset, stored.len()))
    } else {
        None
    }
}

/// The bytes to store for a script: its source, then its compiled form.
pub fn stored_script(source: &[u8], compiled: &[u8]) -> (r: Vec<u8>)
    ensures
        r@ == source@ + compiled@,
{
    let mut r: Vec<u8> = Vec::new();
    let mut i: usize = 0;
    while i < source.len()
        invariant
            i <= source.len(),
            r@ == source@.subrange(0, i as int),
        decreases source.len() - i,
    {
        r.push(source[i]);
        i += 1;
        assert(r@ =~= source@.subrange(0, i as int));
    }
    assert(source@.subrange(0, source@.len() as int) =~= source@);
    let mut j: usize = 0;
    while j < compiled.len()
        invariant
            j <= compiled.len(),
            r@ == source@ + compiled@.subrange(0, j as int),
        decreases compiled.len() - j,
    {
        r.push(compiled[j]);
        j += 1;
        assert(r@ =~= source@ + compiled@.subrange(0, j as int));
    }
    assert(compiled@.subrange(0, compiled@.len() as int) =~= compiled@);
    r
}

/// A script that is stored with its compiled form comes apart again at the
/// length of its source.
pub proof fn lemma_stored_script_parts(source: Seq<u8>, compiled: Seq<u8>)
    ensures
        source_part(source + compiled, source.len() as int) == Some(source),
        compiled_part(source + compiled, source.len() as int) == Some(compiled),
{
    let stored = source + compiled;
    assert(stored.subrange(0, source.len() as int) =~= source);
    assert(stored.subrange(source.len() as int, stored.len() as int) =~= compiled);
}

/// The scripts to return: those asked for, or the first `max` of the
/// existing ones where none is asked for.
pub open spec fn selected(requested: Option<Seq<u32>>, existing: Seq<u32>, max: int) -> Seq<u32> {
    match requested {
        Some(ids) => ids,
        None => if max < existing.len() {
            existing.subrange(0, max)
        } else {
            existing
        },
    }
}

/// The numbers of an optional list.
pub open spec fn ids_of(ids: Option<Vec<u32>>) -> Option<Seq<u32>> {
    match ids {
        Some(ids) => Some(ids@),
        None => None,
    }
}

/// Chooses the scripts to return.
pub fn select_ids(requested: Option<Vec<u32>>, existing: &Vec<u32>, max: usize) -> (r: Vec<u32>)
    ensures
        r@ == selected(ids_of(requested), existing@, max as int),
{
    match requested {
        Some(ids) => ids,
        None => {
            let mut r: Vec<u32> = Vec::new();
            let mut i: usize = 0;
            while i < existing.len() && i < max
                invariant
                    i <= existing.len(),
                    i <= max,
                    r@ == existing@.subrange(0, i as int),
                decreases existing.len() - i,
            {
                r.push(existing[i]);
                i += 1;
                assert(r@ =~= existing@.subrange(0, i as int));
            }
            assert(existing@.subrange(0, existing@.len() as int) =~= existing@);
            r
        },
    }
}

/// Whether `existing` holds the script `id`.
pub fn has_id(existing: &Vec<u32>, id: u32) -> (r: bool)
    ensures
        r == existing@.contains(id),
{
    let mut i: usize = 0;
    while i < existing.len()
        invariant
            i <= existing.len(),
            forall|j: int| 0 <= j < i ==> existing@[j] != id,
        decreases existing.len() - i,
    {
        if existing[i] == id {
            return true;
        }
        i += 1;
    }
    false
}

/// The script to use among those that a search has found: the one with the
/// smallest number.
pub fn first_id(found: &Vec<u32>) -> (r: Option<u32>)
    ensures
        match r {
            Some(id) => found@.contains(id) && forall|i: int|
                0 <= i < found@.len() ==> id <= found@[i],
            None => found@.len() == 0,
        },
{
    if found.len() == 0 {
        return None;
    }
    let mut least: u32 = found[0];
    let mut i: usize = 1;
    while i < found.len()
        invariant
            1 <= i <= found.len(),
            found@.contains(least),
            forall|j: int| 0 <= j < i ==> least <= found@[j],
        decreases found.len() - i,
    {
        if found[i] < least {
            least = found[i];
        }
        i += 1;
    }
    Some(least)
}

/// A property of a stored script that a request may ask for.
#[derive(Clone, Copy, Debug, PartialEq, Eq, Structural)]
pub enum ScriptProperty {
    Id,
    Name,
    BlobId,
    IsActive,
    Other,
}

/// What the store knows of a script.
#[derive(Clone, Debug)]
pub struct StoredScript {
    pub name: Option<String>,
    pub is_active: Option<bool>,
    /// The length of the source within the stored bytes.
    pub blob_size: Option<u64>,
}

/// The value of a property of a script in an answer.
#[derive(Clone, Debug)]
pub enum ScriptValue {
    Id(u32),
    Text(String),
    Bool(bool),
    /// The stored bytes of the script `document_id`, of which the first
    /// `section_size` are its source.
    Blob { document_id: u32, section_size: usize },
    Null,
}

/// The mathematical value of a [`ScriptValue`].
pub enum ScriptValueView {
    Id(u32),
    Text(Seq<char>),
    Bool(bool),
    Blob { document_id: u32, section_size: usize },
    Null,
}

impl View for ScriptValue {
    type V = ScriptValueView;

    open spec fn view(&self) -> ScriptValueView {
        match *self {
            ScriptValue::Id(id) => ScriptValueView::Id(id),
            ScriptValue::Text(text) => ScriptValueView::Text(text@),
            ScriptValue::Bool(b) => ScriptValueView::Bool(b),
            ScriptValue::Blob { document_id, section_size } => ScriptValueView::Blob {
                document_id,
                section_size,
            },
            ScriptValue::Null => ScriptValueView::Null,
        }
    }
}

/// The value of an optional property value.
pub open spec fn value_view(v: Option<ScriptValue>) -> Option<ScriptValueView> {
    match v {
        Some(v) => Some(v@),
        None => None,
    }
}

/// What an answer says of the property `property` of the script `id`: its
/// number; its name or its state, or null where the store knows none; its
/// blob, which is left out where the store knows no length; null for any
/// other property.
pub open spec fn answered(property: ScriptProperty, id: u32, stored: StoredScript) -> Option<
    ScriptValueView,
> {
    match property {
        ScriptProperty::Id => Some(ScriptValueView::Id(id)),
        ScriptProperty::BlobId => match stored.blob_size {
            Some(size) => Some(
                ScriptValueView::Blob { document_id: id, section_size: size as usize },
            ),
            None => None,
        },
        ScriptProperty::Name => match stored.name {
            Some(name) => Some(ScriptValueView::Text(name@)),
            None => Some(ScriptValueView::Null),
        },
        ScriptProperty::IsActive => match stored.is_active {
            Some(active) => Some(ScriptValueView::Bool(active)),
            None => Some(ScriptValueView::Null),
        },
        ScriptProperty::Other => Some(ScriptValueView::Null),
    }
}

/// The value with which the property `property` of the script `id` is
/// answered, if it is answered at all.
pub fn script_value(property: ScriptProperty, id: u32, stored: &StoredScript) -> (r: Option<
    ScriptValue,
>)
    ensures
        value_view(r) == answered(property, id, *stored),
{
    match property {
        ScriptProperty::Id => Some(ScriptValue::Id(id)),
        ScriptProperty::BlobId => match stored.blob_size {
            Some(size) => Some(
                ScriptValue::Blob { document_id: id, section_size: #[verifier::truncate] (size as usize) },
            ),
            None => None,
        },
        ScriptProperty::Name => match &stored.name {
            Some(name) => Some(ScriptValue::Text(name.clone())),
            None => Some(ScriptValue::Null),
        },
        ScriptProperty::IsActive => match stored.is_active {
            Some(active) => Some(ScriptValue::Bool(active)),
            None => Some(ScriptValue::Null),
        },
        ScriptProperty::Other => Some(ScriptValue::Null),
    }
}

} // verus!
