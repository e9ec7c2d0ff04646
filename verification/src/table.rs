//! The functions of one application, by name.

use crate::meta::{DescriptorError, FnEvent, FnMeta, FnMetaYaml};
use crate::text::same_text;
use vstd::prelude::*;

verus! {

/// One application as its descriptor writes it: each function's name with
/// its description. No name stands twice.
#[derive(Debug)]
pub struct AppMetaYaml {
    pub fns: Vec<(String, FnMetaYaml)>,
}

/// Why an application's descriptor is refused.
#[derive(Clone, Copy, Debug, PartialEq, Eq, Structural)]
pub enum AppDescriptorError {
    /// The function at position `function` has the name of an earlier one.
    DuplicateFunction { function: usize },
    /// The description of the function at position `function` is refused
    /// with `error`.
    Function { function: usize, error: DescriptorError },
}

impl AppMetaYaml {
    /// Whether the name of the function at position `function` is the name
    /// of no earlier function.
    pub open spec fn name_new(&self, function: int) -> bool {
        forall|earlier: int|
            0 <= earlier < function ==> (#[trigger] self.fns[earlier]).0@ != self.fns[function].0@
    }

    /// Whether the function at position `function` has a name of its own
    /// and a description that can be loaded.
    pub open spec fn fn_ok(&self, function: int) -> bool {
        self.name_new(function) && self.fns[function].1.valid()
    }

    /// Whether the descriptor can be loaded.
    pub open spec fn valid(&self) -> bool {
        forall|function: int| 0 <= function < self.fns.len() ==> #[trigger] self.fn_ok(function)
    }

    /// Whether `error` is what is wrong with the descriptor: the first
    /// function, in the descriptor's order, that repeats a name or has a
    /// description that is refused.
    pub open spec fn refused_with(&self, error: AppDescriptorError) -> bool {
        match error {
            AppDescriptorError::DuplicateFunction { function } => {
                &&& function < self.fns.len()
                &&& !self.name_new(function as int)
                &&& forall|f: int| 0 <= f < function ==> #[trigger] self.fn_ok(f)
            },
            AppDescriptorError::Function { function, error } => {
                &&& function < self.fns.len()
                &&& self.name_new(function as int)
                &&& self.fns[function as int].1.refused_with(error)
                &&& !self.fns[function as int].1.valid()
                &&& forall|f: int| 0 <= f < function ==> #[trigger] self.fn_ok(f)
            },
        }
    }

    /// Says whether the descriptor can be loaded, and if not, what is wrong
    /// with it.
    pub fn validate(&self) -> (res: Result<(), AppDescriptorError>)
        ensures
            res is Ok == self.valid(),
            res matches Err(error) ==> self.refused_with(error),
    {
        let mut function: usize = 0;
        while function < self.fns.len()
            invariant
                function <= self.fns.len(),
                forall|f: int| 0 <= f < function ==> #[trigger] self.fn_ok(f),
            decreases self.fns.len() - function,
        {
            let mut earlier: usize = 0;
            while earlier < function
                invariant
                    earlier <= function < self.fns.len(),
                    forall|f: int| 0 <= f < function ==> #[trigger] self.fn_ok(f),
                    forall|e: int|
                        0 <= e < earlier ==> (#[trigger] self.fns[e]).0@ != self.fns[function as int].0@,
                decreases function - earlier,
            {
                if same_text(self.fns[earlier].0.as_str(), self.fns[function].0.as_str()) {
                    assert(self.fns[earlier as int].0@ == self.fns[function as int].0@);
                    assert(!self.fn_ok(function as int));
                    return Err(AppDescriptorError::DuplicateFunction { function });
                }
                earlier += 1;
            }
            match self.fns[function].1.validate() {
                Err(error) => {
                    assert(!self.fn_ok(function as int));
                    return Err(AppDescriptorError::Function { function, error });
                },
                Ok(()) => {},
            }
            function += 1;
        }
        Ok(())
    }
}

/// Whether `meta` subscribes to the HTTP trigger of its application.
pub open spec fn handles_http_app(meta: FnMeta) -> bool {
    exists|e: int| 0 <= e < meta.event.len() && #[trigger] meta.event[e] == FnEvent::HttpApp
}

/// The functions of one application: each name with its metadata.
#[derive(Debug)]
pub struct AppMetaFunction {
    fns: Vec<(String, FnMeta)>,
}

impl View for AppMetaFunction {
    type V = Seq<(String, FnMeta)>;

    /// The table, in the descriptor's order.
    closed spec fn view(&self) -> Seq<(String, FnMeta)> {
        self.fns@
    }
}

impl AppMetaFunction {
    /// Whether no name stands twice and every function's subscriptions name
    /// records that are there.
    pub open spec fn wf(&self) -> bool {
        &&& forall|i: int, j: int|
            0 <= i < j < self@.len() ==> (#[trigger] self@[i]).0@ != (#[trigger] self@[j]).0@
        &&& forall|i: int| 0 <= i < self@.len() ==> (#[trigger] self@[i]).1.wf()
    }

    /// Whether this is what `yaml` describes: the same names in the same
    /// order, each with the metadata that its description gives.
    pub open spec fn loaded_from(&self, yaml: AppMetaYaml) -> bool {
        &&& self@.len() == yaml.fns.len()
        &&& forall|i: int|
            0 <= i < self@.len() ==> {
                &&& (#[trigger] self@[i]).0@ == yaml.fns[i].0@
                &&& self@[i].1.loaded_from(yaml.fns[i].1)
            }
    }

    /// The function table that `yaml` describes.
    pub fn from(yaml: AppMetaYaml) -> (res: Self)
        requires
            yaml.valid(),
        ensures
            res.wf(),
            res.loaded_from(yaml),
    {
        let mut fns: Vec<(String, FnMeta)> = Vec::new();
        let mut i: usize = 0;
        while i < yaml.fns.len()
            invariant
                i <= yaml.fns.len(),
                yaml.valid(),
                fns.len() == i,
                forall|j: int|
                    0 <= j < i ==> {
                        &&& (#[trigger] fns[j]).0@ == yaml.fns[j].0@
                        &&& fns[j].1.loaded_from(yaml.fns[j].1)
                        &&& fns[j].1.wf()
                    },
            decreases yaml.fns.len() - i,
        {
            assert(yaml.fn_ok(i as int));
            let meta = FnMeta::from_yaml(&yaml.fns[i].1);
            fns.push((yaml.fns[i].0.clone(), meta));
            i += 1;
        }
        let res = AppMetaFunction { fns };
        proof {
            assert forall|i: int, j: int| 0 <= i < j < res@.len() implies (#[trigger] res@[i]).0@ != (
            #[trigger] res@[j]).0@ by {
                assert(yaml.fn_ok(j));
                assert(yaml.fns[i].0@ != yaml.fns[j].0@);
            }
        }
        res
    }

    /// The number of functions.
    pub fn len(&self) -> (res: usize)
        ensures
            res == self@.len(),
    {
        self.fns.len()
    }

    /// The function at position `i` of the table: its name and metadata.
    pub fn entry(&self, i: usize) -> (res: (&String, &FnMeta))
        requires
            i < self@.len(),
        ensures
            *res.0 == self@[i as int].0,
            *res.1 == self@[i as int].1,
    {
        (&self.fns[i].0, &self.fns[i].1)
    }

    /// The names of the functions, in the table's order.
    pub open spec fn names(&self) -> Seq<Seq<char>> {
        self@.map_values(|entry: (String, FnMeta)| entry.0@)
    }

    /// The names of all functions.
    pub fn fns(&self) -> (res: Vec<String>)
        ensures
            res.deep_view() == self.names(),
    {
        let mut names: Vec<String> = Vec::new();
        let mut i: usize = 0;
        while i < self.fns.len()
            invariant
                i <= self.fns.len(),
                names.len() == i,
                forall|j: int| 0 <= j < i ==> (#[trigger] names[j])@ == self.fns[j].0@,
            decreases self.fns.len() - i,
        {
            names.push(self.fns[i].0.clone());
            i += 1;
        }
        assert(names.deep_view() =~= self.names());
        names
    }

    /// The metadata of the function named `fnname`, if there is one.
    pub fn get_fn_meta(&self, fnname: &str) -> (res: Option<&FnMeta>)
        ensures
            match res {
                Some(meta) => exists|i: int|
                    0 <= i < self@.len() && (#[trigger] self@[i]).0@ == fnname@ && *meta
                        == self@[i].1,
                None => forall|i: int| 0 <= i < self@.len() ==> (#[trigger] self@[i]).0@ != fnname@,
            },
    {
        let mut i: usize = 0;
        while i < self.fns.len()
            invariant
                i <= self.fns.len(),
                forall|j: int| 0 <= j < i ==> (#[trigger] self@[j]).0@ != fnname@,
            decreases self.fns.len() - i,
        {
            if same_text(self.fns[i].0.as_str(), fnname) {
                assert(self@[i as int].0@ == fnname@);
                return Some(&self.fns[i].1);
            }
            i += 1;
        }
        None
    }

    /// The name of the first function, in the table's order, that subscribes
    /// to the HTTP trigger of the application; `None` where no function does.
    pub fn http_trigger_fn(&self) -> (res: Option<&str>)
        ensures
            match res {
                Some(name) => exists|i: int|
                    {
                        &&& 0 <= i < self@.len()
                        &&& handles_http_app((#[trigger] self@[i]).1)
                        &&& name@ == self@[i].0@
                        &&& forall|j: int| 0 <= j < i ==> !handles_http_app((#[trigger] self@[j]).1)
                    },
                None => forall|i: int|
                    0 <= i < self@.len() ==> !handles_http_app((#[trigger] self@[i]).1),
            },
    {
        let mut i: usize = 0;
        while i < self.fns.len()
            invariant
                i <= self.fns.len(),
                forall|j: int| 0 <= j < i ==> !handles_http_app((#[trigger] self@[j]).1),
            decreases self.fns.len() - i,
        {
            let meta = &self.fns[i].1;
            let mut e: usize = 0;
            while e < meta.event.len()
                invariant
                    e <= meta.event.len(),
                    i < self.fns.len(),
                    *meta == self@[i as int].1,
                    forall|j: int| 0 <= j < i ==> !handles_http_app((#[trigger] self@[j]).1),
                    forall|d: int| 0 <= d < e ==> #[trigger] meta.event[d] != FnEvent::HttpApp,
                decreases meta.event.len() - e,
            {
                if meta.event[e] == FnEvent::HttpApp {
                    assert(handles_http_app(self@[i as int].1));
                    return Some(self.fns[i].0.as_str());
                }
                e += 1;
            }
            i += 1;
        }
        None
    }
}

} // verus!
