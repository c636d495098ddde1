//! The objects of an object stream (`/Type /ObjStm`, ISO 32000-1 §7.5.7).

use vstd::prelude::*;
use crate::types::object::{ObjectView, PdfObject};

verus! {

/// The objects an object stream holds, with their object numbers, in the
/// order its header lists them.
#[derive(Debug)]
pub struct ParsedObjectStream {
    pub objects: Vec<(u32, PdfObject)>,
}

/// The first object numbered `n` in `objs`.
pub open spec fn first_object(objs: Seq<(u32, PdfObject)>, n: u32) -> Option<ObjectView>
    decreases objs.len(),
{
    if objs.len() == 0 {
        None
    } else if objs[0].0 == n {
        Some(objs[0].1@)
    } else {
        first_object(objs.drop_first(), n)
    }
}

impl ParsedObjectStream {
    /// The first object numbered `obj_num`, if any.
    pub fn get(&self, obj_num: u32) -> (r: Option<&PdfObject>)
        ensures
            match r {
                Some(o) => first_object(self.objects@, obj_num) == Some(o@),
                None => first_object(self.objects@, obj_num) is None,
            },
    {
        let mut i: usize = 0;
        assert(self.objects@.skip(0) =~= self.objects@);
        while i < self.objects.len()
            invariant
                i <= self.objects@.len(),
                first_object(self.objects@, obj_num) == first_object(self.objects@.skip(i as int), obj_num),
            decreases self.objects@.len() - i,
        {
            assert(self.objects@.skip(i as int).drop_first() =~= self.objects@.skip(i + 1));
            assert(self.objects@.skip(i as int)[0] == self.objects@[i as int]);
            if self.objects[i].0 == obj_num {
                return Some(&self.objects[i].1);
            }
            i += 1;
        }
        None
    }
}

} // verus!
