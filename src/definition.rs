use vstd::prelude::*;
use crate::field::Field;

verus! {

/// A packet layout: its fields in wire order.
#[derive(Clone, Debug)]
pub struct Definition {
    fields: Vec<Field>,
}

impl View for Definition {
    type V = Seq<Field>;

    closed spec fn view(&self) -> Seq<Field> {
        self.fields@
    }
}

impl Definition {
    /// A layout with no fields.
    pub fn new() -> (r: Definition)
        ensures
            r@ == Seq::<Field>::empty(),
    {
        Definition { fields: Vec::new() }
    }

    /// The fields, in wire order.
    pub fn fields(&self) -> (r: &[Field])
        ensures
            r@ == self@,
    {
        self.fields.as_slice()
    }

    /// The layout with `field` appended.
    pub fn field(self, field: Field) -> (r: Definition)
        ensures
            r@ == self@.push(field),
    {
        let mut fields = self.fields;
        fields.push(field);
        Definition { fields }
    }
}

impl Default for Definition {
    fn default() -> (r: Definition)
        ensures
            r@ == Seq::<Field>::empty(),
    {
        Definition::new()
    }
}

} // verus!
