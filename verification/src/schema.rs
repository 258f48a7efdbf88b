//! The registry of a form: which fields it has, under which names, with
//! which limits, and what becomes of names that repeat or that it does not
//! know.

use vstd::prelude::*;
use vstd::utf8::encode_utf8;
use crate::text_util::{opt_chars, str_eq};

verus! {

/// What becomes of a part that arrives for a field which already has a value
/// and takes only one.
#[derive(Debug, Clone, Copy, PartialEq, Eq, Structural)]
pub enum DuplicateAction {
    /// Additional fields are not processed
    Ignore,
    /// An error will be raised
    Deny,
    /// All fields will be processed, the last one will replace all previous
    Replace,
}

impl Default for DuplicateAction {
    fn default() -> (action: Self)
        ensures
            action == DuplicateAction::Ignore,
    {
        DuplicateAction::Ignore
    }
}

/// How many parts a field takes.
#[derive(Debug, Clone, Copy, PartialEq, Eq, Structural)]
pub enum FieldShape {
    /// One value, which is required.
    Scalar,
    /// One value, which may be absent.
    Optional,
    /// Any number of values, in the order of their arrival.
    List,
}

/// The decoder that turns the body of one part into one value.
#[derive(Debug, Clone, Copy, PartialEq, Eq, Structural)]
pub enum ReaderKind {
    /// The bytes as they are.
    Bytes,
    /// UTF-8 text.
    Text,
    /// UTF-8 text that denotes an integer.
    Integer,
    /// A JSON document.
    Json,
    /// A file: the bytes as they are, streamed to storage and not held in
    /// memory.
    File,
}

/// A field as the author of a form declares it.
#[derive(Debug, Clone)]
pub struct FieldAttrs {
    /// The name of the field in the program.
    pub ident: String,
    /// The name under which parts address the field, where it is not `ident`.
    pub rename: Option<String>,
    /// The bytes that all parts of the field together may hold, as a size
    /// with an optional unit: `30B`, `2KiB`, `512 MiB`.
    pub limit: Option<String>,
    pub shape: FieldShape,
    pub reader: ReaderKind,
}

/// The characters of [`FieldAttrs`].
pub struct FieldAttrsView {
    pub ident: Seq<char>,
    pub rename: Option<Seq<char>>,
    pub limit: Option<Seq<char>>,
    pub shape: FieldShape,
    pub reader: ReaderKind,
}

impl View for FieldAttrs {
    type V = FieldAttrsView;

    open spec fn view(&self) -> FieldAttrsView {
        FieldAttrsView {
            ident: self.ident@,
            rename: opt_chars(self.rename),
            limit: opt_chars(self.limit),
            shape: self.shape,
            reader: self.reader,
        }
    }
}

/// The declared fields, each as characters.
pub open spec fn attrs_views(fields: Seq<FieldAttrs>) -> Seq<FieldAttrsView> {
    fields.map_values(|f: FieldAttrs| f@)
}

/// What holds of a form as a whole.
#[derive(Debug, Clone, Copy, PartialEq, Eq, Structural)]
pub struct FormAttrs {
    /// Whether a part that addresses no field fails the decode. Otherwise
    /// such a part is dropped.
    pub deny_unknown_fields: bool,
    pub duplicate_action: DuplicateAction,
}

impl Default for FormAttrs {
    fn default() -> (attrs: Self)
        ensures
            attrs == (FormAttrs {
                deny_unknown_fields: false,
                duplicate_action: DuplicateAction::Ignore,
            }),
    {
        FormAttrs { deny_unknown_fields: false, duplicate_action: DuplicateAction::Ignore }
    }
}

/// One field of a form.
#[derive(Debug, Clone)]
pub struct FieldDescriptor {
    /// The name under which parts address the field.
    pub name: String,
    /// The bytes that all parts of the field together may hold.
    pub limit: Option<usize>,
    pub shape: FieldShape,
    pub reader: ReaderKind,
}

/// A [`FieldDescriptor`] with its name as characters.
pub struct FieldDescriptorView {
    pub name: Seq<char>,
    pub limit: Option<usize>,
    pub shape: FieldShape,
    pub reader: ReaderKind,
}

impl View for FieldDescriptor {
    type V = FieldDescriptorView;

    open spec fn view(&self) -> FieldDescriptorView {
        FieldDescriptorView {
            name: self.name@,
            limit: self.limit,
            shape: self.shape,
            reader: self.reader,
        }
    }
}

/// Why a set of declared fields is not a form.
#[derive(Debug)]
pub enum SchemaError {
    /// A limit is not a size; the limit as it was written.
    InvalidLimit(String),
    /// Two fields are addressed under one name; that name.
    DuplicateName(String),
}

/// The number of ASCII digits among the bytes of a text.
pub open spec fn digit_count(bytes: Seq<u8>) -> nat
    decreases bytes.len(),
{
    if bytes.len() == 0 {
        0
    } else {
        digit_count(bytes.drop_last()) + if 48 <= bytes.last() <= 57 {
            1nat
        } else {
            0nat
        }
    }
}

/// The most digits that a limit may have: as many as the largest size that
/// fits in 64 bits.
pub const MAX_LIMIT_DIGITS: usize = 20;

/// What `parse_size` makes of a limit: the number of bytes, or `None` where
/// the text is not a size that fits in 64 bits.
pub uninterp spec fn parsed_size(text: Seq<char>) -> Option<u64>;

/// `parse_size::parse_size`, a failure as `None`. Trusted: the outcome is the
/// one that `parsed_size` names for these characters. The call is made on
/// texts of at most twenty digits only: on a longer text the parser may add
/// to a number that is already the largest it can hold.
#[verifier::external_body]
fn size_of_text(text: &str) -> (r: Option<u64>)
    requires
        digit_count(encode_utf8(text@)) <= MAX_LIMIT_DIGITS,
    ensures
        r == parsed_size(text@),
{
    parse_size::parse_size(text).ok()
}

/// The bytes that a limit allows, where the text is a size that this machine
/// can count. A text of more than twenty digits is no limit.
pub open spec fn parsed_limit(text: Seq<char>) -> Option<usize> {
    if digit_count(encode_utf8(text)) > MAX_LIMIT_DIGITS {
        None
    } else {
        match parsed_size(text) {
            Some(n) => if n <= usize::MAX {
                Some(n as usize)
            } else {
                None
            },
            None => None,
        }
    }
}

/// Counts the ASCII digits of a text.
fn count_digits(text: &str) -> (count: usize)
    ensures
        count == digit_count(encode_utf8(text@)),
{
    let bytes = text.as_bytes();
    let mut count: usize = 0;
    let mut i: usize = 0;
    assert(bytes@.take(0) =~= Seq::<u8>::empty());
    while i < bytes.len()
        invariant
            0 <= i <= bytes.len(),
            count == digit_count(bytes@.take(i as int)),
            count <= i,
        decreases bytes.len() - i,
    {
        assert(bytes@.take(i as int + 1).drop_last() =~= bytes@.take(i as int));
        if 48 <= bytes[i] && bytes[i] <= 57 {
            count = count + 1;
        }
        i = i + 1;
    }
    assert(bytes@.take(i as int) =~= bytes@);
    count
}

/// Parses the limit of a field.
pub fn parse_limit(text: &str) -> (r: Option<usize>)
    ensures
        r == parsed_limit(text@),
{
    if count_digits(text) > MAX_LIMIT_DIGITS {
        return None;
    }
    match size_of_text(text) {
        Some(n) => {
            if n <= usize::MAX as u64 {
                Some(n as usize)
            } else {
                None
            }
        },
        None => None,
    }
}

impl FieldAttrsView {
    /// The name under which parts address the field.
    pub open spec fn serialization_name(self) -> Seq<char> {
        match self.rename {
            Some(name) => name,
            None => self.ident,
        }
    }

    /// Whether the field declares a limit that is not a size.
    pub open spec fn invalid_limit(self) -> bool {
        self.limit matches Some(text) && parsed_limit(text) is None
    }

    /// The field of the form that the declaration describes.
    pub open spec fn descriptor(self) -> FieldDescriptorView
        recommends
            !self.invalid_limit(),
    {
        FieldDescriptorView {
            name: self.serialization_name(),
            limit: match self.limit {
                Some(text) => parsed_limit(text),
                None => None,
            },
            shape: self.shape,
            reader: self.reader,
        }
    }
}

/// Whether the name of the field at `at` is that of an earlier field.
pub open spec fn repeats(fields: Seq<FieldAttrsView>, at: int) -> bool {
    exists|earlier: int|
        0 <= earlier < at && #[trigger] fields[earlier].serialization_name()
            == fields[at].serialization_name()
}

/// The fields of a form and its policies.
///
/// No two fields have the same name.
pub struct FormSchema {
    fields: Vec<FieldDescriptor>,
    deny_unknown_fields: bool,
    duplicate_action: DuplicateAction,
}

/// A [`FormSchema`] with its names as characters.
pub struct SchemaView {
    pub fields: Seq<FieldDescriptorView>,
    pub deny_unknown_fields: bool,
    pub duplicate_action: DuplicateAction,
}

impl SchemaView {
    /// No two fields have the same name.
    pub open spec fn distinct(self) -> bool {
        forall|i: int, j: int|
            0 <= i < j < self.fields.len() ==> (#[trigger] self.fields[i]).name
                != (#[trigger] self.fields[j]).name
    }

    /// What holds of the view of every form: its names are distinct, and it
    /// has no more fields than can be counted.
    pub open spec fn well_formed(self) -> bool {
        self.distinct() && self.fields.len() <= usize::MAX
    }

    /// Whether the form has a field of this name.
    pub open spec fn knows(self, name: Seq<char>) -> bool {
        exists|i: int| 0 <= i < self.fields.len() && (#[trigger] self.fields[i]).name == name
    }

    /// The index of the field of this name, where the form has one.
    pub open spec fn position(self, name: Seq<char>) -> int
        recommends
            self.knows(name),
    {
        choose|i: int| 0 <= i < self.fields.len() && (#[trigger] self.fields[i]).name == name
    }

    /// The limit in bytes that the form sets for the parts of this name,
    /// taken together.
    pub open spec fn limit(self, name: Seq<char>) -> Option<usize> {
        if self.knows(name) {
            self.fields[self.position(name)].limit
        } else {
            None
        }
    }
}

/// The fields of a list, each with its name as characters.
pub open spec fn descriptor_views(fields: Seq<FieldDescriptor>) -> Seq<FieldDescriptorView> {
    fields.map_values(|f: FieldDescriptor| f@)
}

impl View for FormSchema {
    type V = SchemaView;

    closed spec fn view(&self) -> SchemaView {
        SchemaView {
            fields: descriptor_views(self.fields@),
            deny_unknown_fields: self.deny_unknown_fields,
            duplicate_action: self.duplicate_action,
        }
    }
}

/// The index of the first field of this name among the first `upto`.
fn find_name(fields: &Vec<FieldDescriptor>, upto: usize, name: &str) -> (r: Option<usize>)
    requires
        upto <= fields.len(),
    ensures
        match r {
            Some(i) => i < upto && fields[i as int].name@ == name@ && forall|k: int|
                0 <= k < i ==> (#[trigger] fields[k]).name@ != name@,
            None => forall|k: int| 0 <= k < upto ==> (#[trigger] fields[k]).name@ != name@,
        },
{
    let mut i: usize = 0;
    while i < upto
        invariant
            0 <= i <= upto <= fields.len(),
            forall|k: int| 0 <= k < i ==> (#[trigger] fields[k]).name@ != name@,
        decreases upto - i,
    {
        if str_eq(fields[i].name.as_str(), name) {
            return Some(i);
        }
        i = i + 1;
    }
    None
}

impl FormSchema {
    #[verifier::type_invariant]
    spec fn names_distinct(&self) -> bool {
        forall|i: int, j: int|
            0 <= i < j < self.fields.len() ==> (#[trigger] self.fields[i]).name@
                != (#[trigger] self.fields[j]).name@
    }

    /// Builds the registry of a form from its declaration.
    ///
    /// Every limit is parsed first, in the order of the fields, and the first
    /// that is not a size is reported. Then the names are held against each
    /// other, and the first name that repeats an earlier one is reported.
    #[verifier::loop_isolation(false)]
    pub fn new(attrs: FormAttrs, fields: Vec<FieldAttrs>) -> (r: Result<FormSchema, SchemaError>)
        ensures
            match r {
                Ok(schema) => {
                    &&& schema@.well_formed()
                    &&& forall|i: int|
                        0 <= i < fields.len() ==> !(#[trigger] attrs_views(
                            fields@,
                        )[i]).invalid_limit()
                    &&& forall|i: int|
                        0 <= i < fields.len() ==> !#[trigger] repeats(attrs_views(fields@), i)
                    &&& schema@.fields == attrs_views(fields@).map_values(
                        |f: FieldAttrsView| f.descriptor(),
                    )
                    &&& schema@.deny_unknown_fields == attrs.deny_unknown_fields
                    &&& schema@.duplicate_action == attrs.duplicate_action
                },
                Err(SchemaError::InvalidLimit(text)) => exists|i: int|
                    {
                        &&& 0 <= i < fields.len()
                        &&& (#[trigger] attrs_views(fields@)[i]).limit == Some(text@)
                        &&& parsed_limit(text@) is None
                        &&& forall|k: int|
                            0 <= k < i ==> !(#[trigger] attrs_views(fields@)[k]).invalid_limit()
                    },
                Err(SchemaError::DuplicateName(name)) => {
                    &&& forall|i: int|
                        0 <= i < fields.len() ==> !(#[trigger] attrs_views(
                            fields@,
                        )[i]).invalid_limit()
                    &&& exists|i: int|
                        {
                            &&& 0 <= i < fields.len()
                            &&& (#[trigger] attrs_views(fields@)[i]).serialization_name() == name@
                            &&& repeats(attrs_views(fields@), i)
                            &&& forall|k: int|
                                0 <= k < i ==> !#[trigger] repeats(attrs_views(fields@), k)
                        }
                },
            },
    {
        let ghost declared = attrs_views(fields@);
        let mut parsed: Vec<FieldDescriptor> = Vec::new();
        let mut i: usize = 0;
        while i < fields.len()
            invariant
                0 <= i <= fields.len(),
                parsed.len() == i,
                forall|k: int| 0 <= k < i ==> !(#[trigger] declared[k]).invalid_limit(),
                forall|k: int| 0 <= k < i ==> (#[trigger] parsed[k])@ == declared[k].descriptor(),
            decreases fields.len() - i,
        {
            let field = &fields[i];
            assert(declared[i as int] == field@);
            let name = match &field.rename {
                Some(name) => name.clone(),
                None => field.ident.clone(),
            };
            let limit = match &field.limit {
                Some(text) => match parse_limit(text.as_str()) {
                    Some(limit) => Some(limit),
                    None => {
                        return Err(SchemaError::InvalidLimit(text.clone()));
                    },
                },
                None => None,
            };
            parsed.push(FieldDescriptor { name, limit, shape: field.shape, reader: field.reader });
            i = i + 1;
        }
        let mut j: usize = 0;
        while j < parsed.len()
            invariant
                0 <= j <= parsed.len(),
                forall|k: int| 0 <= k < j ==> !#[trigger] repeats(declared, k),
            decreases parsed.len() - j,
        {
            match find_name(&parsed, j, parsed[j].name.as_str()) {
                Some(earlier) => {
                    assert(declared[earlier as int].serialization_name()
                        == declared[j as int].serialization_name());
                    return Err(SchemaError::DuplicateName(parsed[j].name.clone()));
                },
                None => {
                    assert forall|earlier: int| 0 <= earlier < j implies (
                    #[trigger] declared[earlier].serialization_name())
                        != declared[j as int].serialization_name() by {
                        assert(parsed[earlier]@.name != parsed[j as int]@.name);
                    }
                },
            }
            j = j + 1;
        }
        assert forall|a: int, b: int| 0 <= a < b < parsed.len() implies (#[trigger] parsed[a]).name@
            != (#[trigger] parsed[b]).name@ by {
            assert(!repeats(declared, b));
            assert(declared[a].serialization_name() == parsed[a]@.name);
        }
        let schema = FormSchema {
            fields: parsed,
            deny_unknown_fields: attrs.deny_unknown_fields,
            duplicate_action: attrs.duplicate_action,
        };
        assert(schema@.fields =~= declared.map_values(|f: FieldAttrsView| f.descriptor()));
        Ok(schema)
    }

    /// The number of fields.
    pub fn len(&self) -> (n: usize)
        ensures
            n == self@.fields.len(),
            self@.well_formed(),
    {
        proof {
            use_type_invariant(self);
        }
        self.fields.len()
    }

    /// The field at `index`.
    pub fn field(&self, index: usize) -> (field: &FieldDescriptor)
        requires
            index < self@.fields.len(),
        ensures
            field@ == self@.fields[index as int],
    {
        &self.fields[index]
    }

    /// Whether a part that addresses no field fails the decode.
    pub fn deny_unknown_fields(&self) -> (deny: bool)
        ensures
            deny == self@.deny_unknown_fields,
    {
        self.deny_unknown_fields
    }

    /// What becomes of a second part for a field that takes one.
    pub fn duplicate_action(&self) -> (action: DuplicateAction)
        ensures
            action == self@.duplicate_action,
    {
        self.duplicate_action
    }

    /// The index of the field of this name.
    pub fn position(&self, name: &str) -> (r: Option<usize>)
        ensures
            r is Some <==> self@.knows(name@),
            r matches Some(i) ==> i == self@.position(name@) && i < self@.fields.len(),
            self@.well_formed(),
    {
        proof {
            use_type_invariant(self);
        }
        let r = find_name(&self.fields, self.fields.len(), name);
        proof {
            match r {
                Some(i) => {
                    assert(self@.fields[i as int].name == name@);
                    let chosen = self@.position(name@);
                    assert(self.fields[chosen].name@ == name@);
                    if chosen < i {
                        assert(self.fields[chosen].name@ != self.fields[i as int].name@);
                    } else if i < chosen {
                        assert(self.fields[i as int].name@ != self.fields[chosen].name@);
                    }
                },
                None => {
                    assert forall|k: int| 0 <= k < self@.fields.len() implies (
                    #[trigger] self@.fields[k]).name != name@ by {
                        assert(self.fields[k].name@ != name@);
                    }
                },
            }
        }
        r
    }

    /// An optional limit in bytes to be applied a given field name. Note this limit will be shared
    /// across all fields sharing the same name.
    pub fn limit(&self, field_name: &str) -> (limit: Option<usize>)
        ensures
            limit == self@.limit(field_name@),
    {
        match self.position(field_name) {
            Some(i) => self.fields[i].limit,
            None => None,
        }
    }
}

} // verus!
