//! Calculation procedures as stored in the database.

use vstd::prelude::*;
use crate::text::{i64_to_string, int_decimal_spec};

verus! {

/// A calculation procedure of 1C.
#[derive(Debug)]
pub struct Procedure {
    /// Primary key.
    pub code_1c: String,
    pub name: String,
    /// The text of the procedure, when there is one.
    pub text: Option<String>,
    /// The text translated to VBA, when there is one.
    pub text_vba: Option<String>,
    pub object_code_1c: Option<String>,
    pub object_name: Option<String>,
}

impl Clone for Procedure {
    fn clone(&self) -> (r: Self)
        ensures
            r == *self,
    {
        Procedure {
            code_1c: self.code_1c.clone(),
            name: self.name.clone(),
            text: self.text.clone(),
            text_vba: self.text_vba.clone(),
            object_code_1c: self.object_code_1c.clone(),
            object_name: self.object_name.clone(),
        }
    }
}

impl Default for Procedure {
    fn default() -> (r: Self)
        ensures
            r.code_1c@ == Seq::<char>::empty(),
            r.name@ == Seq::<char>::empty(),
            r.text is None,
            r.text_vba is None,
            r.object_code_1c is None,
            r.object_name is None,
    {
        Procedure {
            code_1c: String::new(),
            name: String::new(),
            text: None,
            text_vba: None,
            object_code_1c: None,
            object_name: None,
        }
    }
}

/// A cutting procedure: keyed by a number in place of a 1C code.
#[derive(Debug)]
pub struct ProcedureCutting {
    /// Primary key.
    pub id: i64,
    pub name: String,
    pub text: Option<String>,
    pub object_name: Option<String>,
}

impl ProcedureCutting {
    /// The same procedure in the general form: its number, in decimal,
    /// becomes its 1C code.
    pub fn into_procedure(self) -> (r: Procedure)
        ensures
            r.code_1c@ == int_decimal_spec(self.id as int),
            r.name == self.name,
            r.text == self.text,
            r.text_vba is None,
            r.object_code_1c is None,
            r.object_name == self.object_name,
    {
        Procedure {
            code_1c: i64_to_string(self.id),
            name: self.name,
            text: self.text,
            text_vba: None,
            object_code_1c: None,
            object_name: self.object_name,
        }
    }
}

} // verus!
