//! The switches that steer code generation.

use vstd::prelude::*;
use vstd::string::*;
use crate::error::{OptionsError, OptionsErrorModel};
use crate::text::{push_upper, upper};
use crate::validation::{is_valid_identifier, valid_identifier};

verus! {

/// When generated code reads the document anew at run time instead of
/// handing out the constant.
#[derive(Debug, Clone, Copy, PartialEq, Eq, Structural)]
pub enum DynamicLoading {
    /// In every build.
    Always,
    /// In debug builds; release builds hand out the constant.
    DebugOnly,
    /// In no build.
    Never,
}

/// Which width a number's generated type gets.
#[derive(Debug, Clone, Copy, PartialEq, Eq, Structural)]
pub enum NumericWidth {
    /// Every integer becomes `i64` and every float `f64`.
    Widen,
    /// Every number keeps the width that it was read with.
    Preserve,
}

/// How generated code holds strings and arrays.
#[derive(Debug, Clone, Copy, PartialEq, Eq, Structural)]
pub enum Representation {
    /// As `Cow<'static, _>`: borrowed in a constant, owned when loaded at
    /// run time.
    Borrowed,
    /// As `String` and `Vec<_>`; such data cannot stand in a constant.
    Owned,
}

/// Options for generating a config struct.
#[derive(Debug, Clone, PartialEq)]
pub struct StructOptions {
    /// The name of the root struct.
    pub struct_name: String,
    /// The name of the constant; without one, the struct's name in upper
    /// case is used.
    pub const_name: Option<String>,
    /// Whether a constant holding the document's values is generated.
    pub generate_const: bool,
    /// Whether `load` functions are generated.
    pub generate_load_fns: bool,
    /// In which builds the `load` functions read the document anew.
    pub dynamic_loading: DynamicLoading,
    /// Which width numbers get.
    pub numeric_width: NumericWidth,
    /// How strings and arrays are held.
    pub representation: Representation,
    /// How many elements of an array are written out in the constant at
    /// most; zero sets no limit.
    pub max_array_size: usize,
    /// Whether the directories above the destination are created.
    pub create_dirs: bool,
    /// Whether a destination that already holds the output is left alone.
    pub write_only_if_changed: bool,
}

/// The mathematical content of a [`StructOptions`].
pub struct OptionsModel {
    pub struct_name: Seq<char>,
    pub const_name: Option<Seq<char>>,
    pub generate_const: bool,
    pub generate_load_fns: bool,
    pub dynamic_loading: DynamicLoading,
    pub numeric_width: NumericWidth,
    pub representation: Representation,
    pub max_array_size: nat,
    pub create_dirs: bool,
    pub write_only_if_changed: bool,
}

impl View for StructOptions {
    type V = OptionsModel;

    open spec fn view(&self) -> OptionsModel {
        OptionsModel {
            struct_name: self.struct_name@,
            const_name: match self.const_name {
                Some(name) => Some(name@),
                None => None,
            },
            generate_const: self.generate_const,
            generate_load_fns: self.generate_load_fns,
            dynamic_loading: self.dynamic_loading,
            numeric_width: self.numeric_width,
            representation: self.representation,
            max_array_size: self.max_array_size as nat,
            create_dirs: self.create_dirs,
            write_only_if_changed: self.write_only_if_changed,
        }
    }
}

impl OptionsModel {
    /// The options that [`StructOptions::default`] gives.
    pub open spec fn standard() -> OptionsModel {
        OptionsModel {
            struct_name: "Config"@,
            const_name: None,
            generate_const: true,
            generate_load_fns: false,
            dynamic_loading: DynamicLoading::DebugOnly,
            numeric_width: NumericWidth::Widen,
            representation: Representation::Borrowed,
            max_array_size: 0,
            create_dirs: true,
            write_only_if_changed: true,
        }
    }

    /// The name that the constant gets: the one asked for, or else the
    /// struct's name in upper case.
    pub open spec fn real_const_name(self) -> Seq<char> {
        match self.const_name {
            Some(name) => name,
            None => upper(self.struct_name),
        }
    }

    /// Whether the generated code holds a constant: because one was asked
    /// for, or because a `load` function hands it out.
    pub open spec fn emits_const(self) -> bool {
        self.generate_const || (self.generate_load_fns && self.dynamic_loading
            != DynamicLoading::Always)
    }

    /// Whether the generated code reads the document at run time in some
    /// build.
    pub open spec fn loads_dynamically(self) -> bool {
        self.generate_load_fns && self.dynamic_loading != DynamicLoading::Never
    }

    /// What is wrong with these options, if anything: the first of a bad
    /// struct name, a bad constant name, and owned data in a constant.
    pub open spec fn problem(self) -> Option<OptionsErrorModel> {
        if !is_valid_identifier(self.struct_name) {
            Some(OptionsErrorModel::InvalidStructName(self.struct_name))
        } else if !is_valid_identifier(self.real_const_name()) {
            Some(OptionsErrorModel::InvalidConstName(self.real_const_name()))
        } else if self.representation == Representation::Owned && self.emits_const() {
            Some(OptionsErrorModel::OwnedConstant)
        } else {
            None
        }
    }
}

impl Default for StructOptions {
    fn default() -> (options: StructOptions)
        ensures
            options@ == OptionsModel::standard(),
    {
        StructOptions {
            struct_name: "Config".to_owned(),
            const_name: None,
            generate_const: true,
            generate_load_fns: false,
            dynamic_loading: DynamicLoading::DebugOnly,
            numeric_width: NumericWidth::Widen,
            representation: Representation::Borrowed,
            max_array_size: 0,
            create_dirs: true,
            write_only_if_changed: true,
        }
    }
}

impl StructOptions {
    /// The name that the constant gets.
    pub fn real_const_name(&self) -> (name: String)
        ensures
            name@ == self@.real_const_name(),
    {
        match &self.const_name {
            Some(name) => name.clone(),
            None => {
                let mut name = String::new();
                push_upper(&mut name, self.struct_name.as_str());
                name
            },
        }
    }

    /// Whether the generated code holds a constant.
    pub fn emits_const(&self) -> (emits: bool)
        ensures
            emits == self@.emits_const(),
    {
        self.generate_const || (self.generate_load_fns && self.dynamic_loading
            != DynamicLoading::Always)
    }

    /// Whether the generated code reads the document at run time in some
    /// build.
    pub fn loads_dynamically(&self) -> (loads: bool)
        ensures
            loads == self@.loads_dynamically(),
    {
        self.generate_load_fns && self.dynamic_loading != DynamicLoading::Never
    }

    /// Checks that code can be generated with these options.
    pub fn validate(&self) -> (res: Result<(), OptionsError>)
        ensures
            match res {
                Ok(_) => self@.problem() is None,
                Err(error) => self@.problem() == Some(error@),
            },
    {
        if !valid_identifier(self.struct_name.as_str()) {
            return Err(OptionsError::InvalidStructName(self.struct_name.clone()));
        }
        let const_name = self.real_const_name();
        if !valid_identifier(const_name.as_str()) {
            return Err(OptionsError::InvalidConstName(const_name));
        }
        if self.representation == Representation::Owned && self.emits_const() {
            return Err(OptionsError::OwnedConstant);
        }
        Ok(())
    }
}

} // verus!
