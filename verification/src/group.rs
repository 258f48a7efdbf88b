//! The values that accumulate for the fields of a form while its parts
//! arrive, and what a field of each shape makes of its parts.
//!
//! The values are of any type `V`: the accumulator stores and hands out what
//! a decoder produced, and never looks into it.

use vstd::prelude::*;
use crate::error::{Error, ErrorView};
use crate::limits::Limits;
use crate::part::PartHead;
use crate::reader::{FieldReader, ReaderConfig};
use crate::schema::{DuplicateAction, FieldShape, FormSchema, SchemaView};

verus! {

/// Used to accumulate the state of the loaded fields: for each field of a
/// form, by its index, the values decoded for it so far.
pub struct State<V> {
    slots: Vec<Vec<V>>,
}

impl<V> State<V> {
    /// The values of each field, in the order in which they were stored.
    pub closed spec fn slots(&self) -> Seq<Seq<V>> {
        Seq::new(self.slots@.len(), |i: int| self.slots@[i]@)
    }

    /// The state of a form of `fields` fields before its first part.
    pub fn new(fields: usize) -> (state: Self)
        ensures
            state.slots() == Seq::new(fields as nat, |i: int| Seq::<V>::empty()),
    {
        let mut slots: Vec<Vec<V>> = Vec::new();
        let mut i: usize = 0;
        while i < fields
            invariant
                0 <= i <= fields,
                slots.len() == i,
                forall|k: int| 0 <= k < i ==> (#[trigger] slots[k])@ == Seq::<V>::empty(),
            decreases fields - i,
        {
            slots.push(Vec::new());
            i = i + 1;
        }
        let state = State { slots };
        assert(state.slots() =~= Seq::new(fields as nat, |i: int| Seq::<V>::empty()));
        state
    }

    /// The number of fields.
    pub fn len(&self) -> (n: usize)
        ensures
            n == self.slots().len(),
    {
        self.slots.len()
    }

    /// Whether the field at `index` has a value.
    pub fn contains(&self, index: usize) -> (b: bool)
        requires
            index < self.slots().len(),
        ensures
            b == (self.slots()[index as int].len() > 0),
    {
        self.slots[index].len() > 0
    }

    /// Makes `value` the one value of the field at `index`.
    pub fn insert(&mut self, index: usize, value: V)
        requires
            index < old(self).slots().len(),
        ensures
            final(self).slots() == old(self).slots().update(index as int, seq![value]),
    {
        let mut one: Vec<V> = Vec::new();
        one.push(value);
        let slot = &mut self.slots[index];
        *slot = one;
        assert(self.slots() =~= old(self).slots().update(index as int, seq![value]));
    }

    /// Adds `value` to the values of the field at `index`.
    pub fn push(&mut self, index: usize, value: V)
        requires
            index < old(self).slots().len(),
        ensures
            final(self).slots() == old(self).slots().update(
                index as int,
                old(self).slots()[index as int].push(value),
            ),
    {
        let slot = &mut self.slots[index];
        slot.push(value);
        assert(self.slots() =~= old(self).slots().update(
            index as int,
            old(self).slots()[index as int].push(value),
        ));
    }

    /// Takes the values of the field at `index` out of the state.
    pub fn remove(&mut self, index: usize) -> (values: Vec<V>)
        requires
            index < old(self).slots().len(),
        ensures
            values@ == old(self).slots()[index as int],
            final(self).slots() == old(self).slots().update(index as int, Seq::<V>::empty()),
    {
        let mut values: Vec<V> = Vec::new();
        let slot = &mut self.slots[index];
        core::mem::swap(slot, &mut values);
        assert(self.slots() =~= old(self).slots().update(index as int, Seq::<V>::empty()));
        values
    }
}

impl<V> Default for State<V> {
    fn default() -> (state: Self)
        ensures
            state.slots() == Seq::<Seq<V>>::empty(),
    {
        let state = State { slots: Vec::new() };
        assert(state.slots() =~= Seq::<Seq<V>>::empty());
        state
    }
}

/// The value of one field of a decoded form.
#[derive(Debug)]
pub enum FieldValue<V> {
    Scalar(V),
    Optional(Option<V>),
    List(Vec<V>),
}

/// A [`FieldValue`] with its list as a sequence.
pub enum FieldValueModel<V> {
    Scalar(V),
    Optional(Option<V>),
    List(Seq<V>),
}

impl<V> View for FieldValue<V> {
    type V = FieldValueModel<V>;

    open spec fn view(&self) -> FieldValueModel<V> {
        match self {
            FieldValue::Scalar(v) => FieldValueModel::Scalar(*v),
            FieldValue::Optional(v) => FieldValueModel::Optional(*v),
            FieldValue::List(v) => FieldValueModel::List(v@),
        }
    }
}

/// The fields of a decoded form, each with its list as a sequence.
pub open spec fn value_models<V>(values: Seq<FieldValue<V>>) -> Seq<FieldValueModel<V>> {
    values.map_values(|v: FieldValue<V>| v@)
}

/// What is done with a part once its name is known.
#[derive(Debug, Clone, Copy, PartialEq, Eq, Structural)]
pub enum Decision {
    /// The part is passed over: its body is neither read nor charged.
    Skip,
    /// The part is decoded for the field at this index.
    Read(usize),
}

/// Whether a field reads a part that arrives for it: a list always does; a
/// field of one value does unless it has a value already, and then the
/// duplicate policy decides.
pub open spec fn admitted(
    shape: FieldShape,
    occupied: bool,
    name: Seq<char>,
    action: DuplicateAction,
) -> Result<bool, ErrorView> {
    if shape is List || !occupied {
        Ok(true)
    } else {
        match action {
            DuplicateAction::Ignore => Ok(false),
            DuplicateAction::Deny => Err(ErrorView::DuplicateField(name)),
            DuplicateAction::Replace => Ok(true),
        }
    }
}

/// The values of a field after it has taken one more: a list appends it, a
/// field of one value keeps only the new one.
pub open spec fn accepted<V>(shape: FieldShape, values: Seq<V>, value: V) -> Seq<V> {
    if shape is List {
        values.push(value)
    } else {
        seq![value]
    }
}

/// What a field makes of its values once every part has arrived. Only a
/// scalar field without a value fails.
pub open spec fn collected<V>(shape: FieldShape, name: Seq<char>, values: Seq<V>) -> Result<
    FieldValueModel<V>,
    ErrorView,
> {
    match shape {
        FieldShape::Scalar => if values.len() > 0 {
            Ok(FieldValueModel::Scalar(values.last()))
        } else {
            Err(ErrorView::MissingField(name))
        },
        FieldShape::Optional => Ok(
            FieldValueModel::Optional(
                if values.len() > 0 {
                    Some(values.last())
                } else {
                    None
                },
            ),
        ),
        FieldShape::List => Ok(FieldValueModel::List(values)),
    }
}

impl FieldShape {
    /// Decides, before the body of a part named `name` is read, whether the
    /// field at `index` takes it.
    pub fn handle_field<V>(
        self,
        state: &State<V>,
        index: usize,
        name: &str,
        duplicate_action: DuplicateAction,
    ) -> (r: Result<bool, Error>)
        requires
            index < state.slots().len(),
        ensures
            match admitted(self, state.slots()[index as int].len() > 0, name@, duplicate_action) {
                Ok(read) => r == Ok::<bool, Error>(read),
                Err(e) => r is Err && r->Err_0@ == e,
            },
    {
        match self {
            FieldShape::List => Ok(true),
            _ => {
                if state.contains(index) {
                    match duplicate_action {
                        DuplicateAction::Ignore => Ok(false),
                        DuplicateAction::Deny => Err(Error::DuplicateField(name.to_owned())),
                        DuplicateAction::Replace => Ok(true),
                    }
                } else {
                    Ok(true)
                }
            },
        }
    }

    /// Stores the value that was decoded from a part for the field at
    /// `index`.
    pub fn accept<V>(self, state: &mut State<V>, index: usize, value: V)
        requires
            index < old(state).slots().len(),
        ensures
            final(state).slots() == old(state).slots().update(
                index as int,
                accepted(self, old(state).slots()[index as int], value),
            ),
    {
        match self {
            FieldShape::List => state.push(index, value),
            _ => state.insert(index, value),
        }
    }

    /// Creates the value of the field at `index`, which is named `name`, from
    /// the values of its parts, and takes them out of the state.
    pub fn from_state<V>(self, name: &str, state: &mut State<V>, index: usize) -> (r: Result<
        FieldValue<V>,
        Error,
    >)
        requires
            index < old(state).slots().len(),
        ensures
            final(state).slots() == old(state).slots().update(index as int, Seq::<V>::empty()),
            match collected(self, name@, old(state).slots()[index as int]) {
                Ok(value) => r is Ok && r->Ok_0@ == value,
                Err(e) => r is Err && r->Err_0@ == e,
            },
    {
        let mut values = state.remove(index);
        match self {
            FieldShape::Scalar => match values.pop() {
                Some(value) => Ok(FieldValue::Scalar(value)),
                None => Err(Error::MissingField(name.to_owned())),
            },
            FieldShape::Optional => Ok(FieldValue::Optional(values.pop())),
            FieldShape::List => Ok(FieldValue::List(values)),
        }
    }
}

impl SchemaView {
    /// What is done with a part of this name, given the values that the
    /// fields have: a part that addresses no field is dropped or, where the
    /// form denies unknown fields, fails the decode; any other part is put to
    /// its field.
    pub open spec fn decision<V>(self, slots: Seq<Seq<V>>, name: Seq<char>) -> Result<
        Decision,
        ErrorView,
    > {
        if !self.knows(name) {
            if self.deny_unknown_fields {
                Err(ErrorView::UnsupportedField(name))
            } else {
                Ok(Decision::Skip)
            }
        } else {
            let i = self.position(name);
            match admitted(self.fields[i].shape, slots[i].len() > 0, name, self.duplicate_action) {
                Err(e) => Err(e),
                Ok(true) => Ok(Decision::Read(i as usize)),
                Ok(false) => Ok(Decision::Skip),
            }
        }
    }

    /// The values of the fields after the field at `index` has taken
    /// `value`.
    pub open spec fn accepted<V>(self, slots: Seq<Seq<V>>, index: int, value: V) -> Seq<Seq<V>> {
        slots.update(index, accepted(self.fields[index].shape, slots[index], value))
    }

    /// The first field from `from` on that is required and has no value.
    pub open spec fn missing_from<V>(self, slots: Seq<Seq<V>>, from: int) -> Option<int>
        decreases self.fields.len() - from,
    {
        if from < 0 || from >= self.fields.len() {
            None
        } else if self.is_missing(slots, from) {
            Some(from)
        } else {
            self.missing_from(slots, from + 1)
        }
    }

    /// Whether the field at `index` is required and has no value.
    pub open spec fn is_missing<V>(self, slots: Seq<Seq<V>>, index: int) -> bool {
        self.fields[index].shape is Scalar && slots[index].len() == 0
    }

    /// The field that `missing_from` gives is the first from `from` on that
    /// is required and has no value; it gives none exactly if there is none.
    pub proof fn lemma_missing_from<V>(self, slots: Seq<Seq<V>>, from: int)
        requires
            0 <= from,
        ensures
            match self.missing_from(slots, from) {
                Some(i) => {
                    &&& from <= i < self.fields.len()
                    &&& self.is_missing(slots, i)
                    &&& forall|k: int| from <= k < i ==> !#[trigger] self.is_missing(slots, k)
                },
                None => forall|k: int|
                    from <= k < self.fields.len() ==> !#[trigger] self.is_missing(slots, k),
            },
        decreases self.fields.len() - from,
    {
        if from < self.fields.len() {
            self.lemma_missing_from(slots, from + 1);
        }
    }

    /// The value of the field at `index`, where it is not a required field
    /// without a value.
    pub open spec fn value_of<V>(self, slots: Seq<Seq<V>>, index: int) -> FieldValueModel<V> {
        match self.fields[index].shape {
            FieldShape::Scalar => FieldValueModel::Scalar(slots[index].last()),
            FieldShape::Optional => FieldValueModel::Optional(
                if slots[index].len() > 0 {
                    Some(slots[index].last())
                } else {
                    None
                },
            ),
            FieldShape::List => FieldValueModel::List(slots[index]),
        }
    }

    /// The decoded form: the value of every field, in the order of the
    /// fields, or the first required field that has no value.
    pub open spec fn finalized<V>(self, slots: Seq<Seq<V>>) -> Result<
        Seq<FieldValueModel<V>>,
        ErrorView,
    > {
        match self.missing_from(slots, 0) {
            Some(i) => Err(ErrorView::MissingField(self.fields[i].name)),
            None => Ok(Seq::new(self.fields.len(), |i: int| self.value_of(slots, i))),
        }
    }
}

impl FormSchema {
    /// The state of the form before its first part.
    pub fn new_state<V>(&self) -> (state: State<V>)
        ensures
            state.slots() == Seq::new(self@.fields.len(), |i: int| Seq::<V>::empty()),
            self@.well_formed(),
    {
        State::new(self.len())
    }

    /// Decides what is done with a part of this name. The extractor calls
    /// this for each incoming part, before its body is read.
    pub fn handle_field<V>(&self, state: &State<V>, name: &str) -> (r: Result<Decision, Error>)
        requires
            state.slots().len() == self@.fields.len(),
        ensures
            match self@.decision(state.slots(), name@) {
                Ok(decision) => r == Ok::<Decision, Error>(decision),
                Err(e) => r is Err && r->Err_0@ == e,
            },
            r matches Ok(Decision::Read(i)) ==> i < self@.fields.len(),
    {
        match self.position(name) {
            None => {
                if self.deny_unknown_fields() {
                    Err(Error::UnsupportedField(name.to_owned()))
                } else {
                    Ok(Decision::Skip)
                }
            },
            Some(i) => {
                match self.field(i).shape.handle_field(state, i, name, self.duplicate_action()) {
                    Err(e) => Err(e),
                    Ok(true) => Ok(Decision::Read(i)),
                    Ok(false) => Ok(Decision::Skip),
                }
            },
        }
    }

    /// Stores the value that was decoded from a part for the field at
    /// `index`.
    pub fn accept<V>(&self, state: &mut State<V>, index: usize, value: V)
        requires
            old(state).slots().len() == self@.fields.len(),
            index < self@.fields.len(),
        ensures
            final(state).slots() == self@.accepted(old(state).slots(), index as int, value),
    {
        self.field(index).shape.accept(state, index, value)
    }

    /// Once all the parts have been processed and stored in the state, this
    /// is called to convert it into the decoded form: the value of every
    /// field in turn, or the first failure.
    #[verifier::loop_isolation(false)]
    pub fn from_state<V>(&self, state: State<V>) -> (r: Result<Vec<FieldValue<V>>, Error>)
        requires
            state.slots().len() == self@.fields.len(),
        ensures
            match self@.finalized(state.slots()) {
                Ok(values) => r is Ok && value_models(r->Ok_0@) == values,
                Err(e) => r is Err && r->Err_0@ == e,
            },
    {
        let ghost slots = state.slots();
        let mut rest = state;
        let mut values: Vec<FieldValue<V>> = Vec::new();
        let mut i: usize = 0;
        while i < self.len()
            invariant
                0 <= i <= self@.fields.len(),
                slots.len() == self@.fields.len(),
                rest.slots().len() == slots.len(),
                forall|k: int| i <= k < slots.len() ==> #[trigger] rest.slots()[k] == slots[k],
                self@.missing_from(slots, 0) == self@.missing_from(slots, i as int),
                values.len() == i,
                forall|k: int| 0 <= k < i ==> (#[trigger] values[k])@ == self@.value_of(slots, k),
            decreases self@.fields.len() - i,
        {
            let field = self.field(i);
            match field.shape.from_state(field.name.as_str(), &mut rest, i) {
                Ok(value) => {
                    values.push(value);
                },
                Err(e) => {
                    return Err(e);
                },
            }
            i = i + 1;
        }
        assert(value_models(values@) =~= Seq::new(
            self@.fields.len(),
            |i: int| self@.value_of(slots, i),
        ));
        Ok(values)
    }
}

/// Puts one part to the field at `index`, whose values are read by `T`: the
/// shape decides whether the part is read, `T` reads it, and the shape
/// stores what was read.
fn read_into<T: FieldReader>(
    shape: FieldShape,
    config: &ReaderConfig,
    head: PartHead,
    chunks: &Vec<Vec<u8>>,
    limits: &mut Limits,
    state: &mut State<T>,
    index: usize,
    duplicate_action: DuplicateAction,
) -> (r: Result<(), Error>)
    requires
        index < old(state).slots().len(),
    ensures
        handled(
            shape,
            config,
            head,
            chunks,
            *old(limits),
            *final(limits),
            old(state).slots(),
            final(state).slots(),
            index as int,
            duplicate_action,
            r,
        ),
{
    match shape.handle_field(state, index, head.name.as_str(), duplicate_action) {
        Err(e) => Err(e),
        Ok(false) => Ok(()),
        Ok(true) => match T::read_field(config, head, chunks, limits) {
            Ok(value) => {
                shape.accept(state, index, value);
                Ok(())
            },
            Err(e) => Err(e),
        },
    }
}

/// What holds after a field of a shape has handled a part, which the reader
/// `T` reads.
///
/// A part that the shape does not admit changes nothing: it is passed over
/// or, where duplicates are denied, fails the decode. A part that is
/// admitted is handed to the reader as it is, under the quotas as they are,
/// and the quotas are left as the reader leaves them, never higher. The
/// value that the reader gives is stored as the shape stores it; the failure
/// that the reader gives is the failure of the decode, with the values as
/// they were.
pub open spec fn handled<T: FieldReader>(
    shape: FieldShape,
    config: &ReaderConfig,
    head: PartHead,
    chunks: &Vec<Vec<u8>>,
    limits: Limits,
    limits_after: Limits,
    slots: Seq<Seq<T>>,
    slots_after: Seq<Seq<T>>,
    index: int,
    duplicate_action: DuplicateAction,
    r: Result<(), Error>,
) -> bool {
    match admitted(shape, slots[index].len() > 0, head@.name, duplicate_action) {
        Err(e) => r is Err && r->Err_0@ == e && slots_after == slots && limits_after == limits,
        Ok(false) => r is Ok && slots_after == slots && limits_after == limits,
        Ok(true) => exists|read: Result<T, Error>|
            {
                &&& #[trigger] T::reads(config, head, chunks, limits, limits_after, read)
                &&& limits_after.within(limits)
                &&& match read {
                    Ok(value) => r is Ok && slots_after == slots.update(
                        index,
                        accepted(shape, slots[index], value),
                    ),
                    Err(e) => r == Err::<(), Error>(e) && slots_after == slots,
                }
            },
    }
}

/// Trait that the field collection types implement, i.e. `Vec<T>`,
/// `Option<T>`, or `T` itself.
pub trait FieldGroupReader<T: FieldReader>: Sized {
    /// How many parts the field takes.
    spec fn shape() -> FieldShape;

    /// The form will call this function for each matching part.
    fn handle_field(
        config: &ReaderConfig,
        head: PartHead,
        chunks: &Vec<Vec<u8>>,
        limits: &mut Limits,
        state: &mut State<T>,
        index: usize,
        duplicate_action: DuplicateAction,
    ) -> (r: Result<(), Error>)
        requires
            index < old(state).slots().len(),
        ensures
            handled(
                Self::shape(),
                config,
                head,
                chunks,
                *old(limits),
                *final(limits),
                old(state).slots(),
                final(state).slots(),
                index as int,
                duplicate_action,
                r,
            ),
    ;

    /// Create `Self` from the group of processed parts of the field at
    /// `index`, which is named `name`, and take them out of the state.
    fn from_state(name: &str, state: &mut State<T>, index: usize) -> (r: Result<Self, Error>)
        requires
            index < old(state).slots().len(),
        ensures
            final(state).slots() == old(state).slots().update(index as int, Seq::<T>::empty()),
            match collected(Self::shape(), name@, old(state).slots()[index as int]) {
                Ok(_) => r is Ok,
                Err(e) => r is Err && r->Err_0@ == e,
            },
    ;
}

impl<T: FieldReader> FieldGroupReader<T> for Option<T> {
    open spec fn shape() -> FieldShape {
        FieldShape::Optional
    }

    fn handle_field(
        config: &ReaderConfig,
        head: PartHead,
        chunks: &Vec<Vec<u8>>,
        limits: &mut Limits,
        state: &mut State<T>,
        index: usize,
        duplicate_action: DuplicateAction,
    ) -> (r: Result<(), Error>) {
        read_into(
            FieldShape::Optional,
            config,
            head,
            chunks,
            limits,
            state,
            index,
            duplicate_action,
        )
    }

    fn from_state(name: &str, state: &mut State<T>, index: usize) -> (r: Result<Self, Error>)
        ensures
            r is Ok && r->Ok_0 == (if old(state).slots()[index as int].len() > 0 {
                Some(old(state).slots()[index as int].last())
            } else {
                None
            }),
    {
        let mut values = state.remove(index);
        Ok(values.pop())
    }
}

impl<T: FieldReader> FieldGroupReader<T> for Vec<T> {
    open spec fn shape() -> FieldShape {
        FieldShape::List
    }

    fn handle_field(
        config: &ReaderConfig,
        head: PartHead,
        chunks: &Vec<Vec<u8>>,
        limits: &mut Limits,
        state: &mut State<T>,
        index: usize,
        duplicate_action: DuplicateAction,
    ) -> (r: Result<(), Error>) {
        read_into(FieldShape::List, config, head, chunks, limits, state, index, duplicate_action)
    }

    fn from_state(name: &str, state: &mut State<T>, index: usize) -> (r: Result<Self, Error>)
        ensures
            r is Ok && r->Ok_0@ == old(state).slots()[index as int],
    {
        Ok(state.remove(index))
    }
}

impl<T: FieldReader> FieldGroupReader<T> for T {
    open spec fn shape() -> FieldShape {
        FieldShape::Scalar
    }

    fn handle_field(
        config: &ReaderConfig,
        head: PartHead,
        chunks: &Vec<Vec<u8>>,
        limits: &mut Limits,
        state: &mut State<T>,
        index: usize,
        duplicate_action: DuplicateAction,
    ) -> (r: Result<(), Error>) {
        read_into(FieldShape::Scalar, config, head, chunks, limits, state, index, duplicate_action)
    }

    fn from_state(name: &str, state: &mut State<T>, index: usize) -> (r: Result<Self, Error>)
        ensures
            r is Ok ==> r->Ok_0 == old(state).slots()[index as int].last(),
    {
        let mut values = state.remove(index);
        match values.pop() {
            Some(value) => Ok(value),
            None => Err(Error::MissingField(name.to_owned())),
        }
    }
}

} // verus!
