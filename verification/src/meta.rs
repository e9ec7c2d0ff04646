//! The metadata of one function: what triggers it, what it takes, and which
//! keys it may read, write and delete.

use crate::pattern::KeyPattern;
use crate::text::same_text;
use vstd::prelude::*;
use vstd::std_specs::convert::FromSpecImpl;
use vstd::utf8::{decode_utf8, valid_utf8};

verus! {

/// The three operations on a key.
#[derive(Clone, Copy, Debug, PartialEq, Eq, Structural)]
pub enum KvOps {
    Get,
    Put,
    Delete,
}

/// An event subscription as a descriptor writes it.
#[derive(Clone, Copy, Debug)]
pub enum FnEventYaml {
    HttpFn { http_fn: () },
    HttpApp { http_app: () },
    KvSet { kv_set: usize },
}

/// What triggers a function: a call over HTTP to the function, a call over
/// HTTP to its application, or a write to a key that fits the permission
/// record with the given index.
#[derive(Clone, Copy, Debug, PartialEq, Eq, Structural)]
pub enum FnEvent {
    HttpFn,
    HttpApp,
    KvSet(usize),
}

/// The event that a descriptor's subscription stands for.
pub open spec fn event_of(yaml: FnEventYaml) -> FnEvent {
    match yaml {
        FnEventYaml::HttpFn { http_fn: _ } => FnEvent::HttpFn,
        FnEventYaml::HttpApp { http_app: _ } => FnEvent::HttpApp,
        FnEventYaml::KvSet { kv_set } => FnEvent::KvSet(kv_set),
    }
}

impl From<FnEventYaml> for FnEvent {
    fn from(yaml: FnEventYaml) -> (res: Self) {
        match yaml {
            FnEventYaml::HttpFn { http_fn: _ } => Self::HttpFn,
            FnEventYaml::HttpApp { http_app: _ } => Self::HttpApp,
            FnEventYaml::KvSet { kv_set } => Self::KvSet(kv_set),
        }
    }
}

impl FromSpecImpl<FnEventYaml> for FnEvent {
    open spec fn obeys_from_spec() -> bool {
        true
    }

    open spec fn from_spec(yaml: FnEventYaml) -> Self {
        event_of(yaml)
    }
}

/// A declared argument as a descriptor writes it.
#[derive(Clone, Copy, Debug)]
pub enum FnArgYaml {
    KvKey { kv_key: usize },
    HttpText { http_text: () },
}

/// A declared argument: the key of the permission record with the given
/// index, or the text of the HTTP request.
#[derive(Clone, Copy, Debug, PartialEq, Eq, Structural)]
pub enum FnArg {
    KvKey(usize),
    HttpText,
}

/// The argument that a descriptor's argument stands for.
pub open spec fn arg_of(yaml: FnArgYaml) -> FnArg {
    match yaml {
        FnArgYaml::KvKey { kv_key } => FnArg::KvKey(kv_key),
        FnArgYaml::HttpText { http_text: _ } => FnArg::HttpText,
    }
}

impl From<FnArgYaml> for FnArg {
    fn from(yaml: FnArgYaml) -> (res: Self) {
        match yaml {
            FnArgYaml::KvKey { kv_key } => Self::KvKey(kv_key),
            FnArgYaml::HttpText { http_text: _ } => Self::HttpText,
        }
    }
}

impl FromSpecImpl<FnArgYaml> for FnArg {
    open spec fn obeys_from_spec() -> bool {
        true
    }

    open spec fn from_spec(yaml: FnArgYaml) -> Self {
        arg_of(yaml)
    }
}

/// One function as a descriptor writes it. `kvs` lists, in the descriptor's
/// order, each key pattern with the names of the operations allowed on it.
#[derive(Debug)]
pub struct FnMetaYaml {
    pub event: Vec<FnEventYaml>,
    pub args: Vec<FnArgYaml>,
    pub kvs: Option<Vec<(String, Vec<String>)>>,
}

/// Why a function's descriptor is refused.
#[derive(Clone, Copy, Debug, PartialEq, Eq, Structural)]
pub enum DescriptorError {
    /// The name at position `op` of record `record` is none of `set`, `get`
    /// and `delete`.
    InvalidOperation { record: usize, op: usize },
    /// Record `record` has the pattern of an earlier record.
    DuplicatePattern { record: usize },
    /// The subscription at position `event` names a record that is not there.
    TriggerOutOfRange { event: usize },
}

/// Whether `name` names an operation.
pub open spec fn is_operation(name: Seq<char>) -> bool {
    name == "set"@ || name == "get"@ || name == "delete"@
}

/// The name that descriptors give to an operation.
pub open spec fn op_name(ope: KvOps) -> Seq<char> {
    match ope {
        KvOps::Get => "get"@,
        KvOps::Put => "set"@,
        KvOps::Delete => "delete"@,
    }
}

impl FnMetaYaml {
    /// The permission entries; none where the descriptor has no `kvs`.
    pub open spec fn entries(&self) -> Seq<(String, Vec<String>)> {
        match self.kvs {
            Some(entries) => entries@,
            None => Seq::empty(),
        }
    }

    /// Whether the name at position `op` of record `record` names an
    /// operation.
    pub open spec fn op_ok(&self, record: int, op: int) -> bool {
        is_operation(self.entries()[record].1[op]@)
    }

    /// Whether every operation name names an operation.
    pub open spec fn ops_valid(&self) -> bool {
        forall|record: int, op: int|
            0 <= record < self.entries().len() && 0 <= op < self.entries()[record].1.len()
                ==> #[trigger] self.op_ok(record, op)
    }

    /// Whether the pattern of record `record` is the pattern of no earlier
    /// record.
    pub open spec fn pattern_new(&self, record: int) -> bool {
        forall|earlier: int|
            0 <= earlier < record ==> (#[trigger] self.entries()[earlier]).0@
                != self.entries()[record].0@
    }

    /// Whether no two records have the same pattern.
    pub open spec fn patterns_distinct(&self) -> bool {
        forall|record: int| 0 <= record < self.entries().len() ==> #[trigger] self.pattern_new(record)
    }

    /// Whether the subscription at position `event`, if it is to a key
    /// pattern, names a record that is there.
    pub open spec fn trigger_ok(&self, event: int) -> bool {
        self.event[event] matches FnEventYaml::KvSet { kv_set } ==> kv_set < self.entries().len()
    }

    /// Whether every subscription to a key pattern names a record that is
    /// there.
    pub open spec fn triggers_valid(&self) -> bool {
        forall|event: int| 0 <= event < self.event.len() ==> #[trigger] self.trigger_ok(event)
    }

    /// Whether the descriptor can be loaded.
    pub open spec fn valid(&self) -> bool {
        &&& self.ops_valid()
        &&& self.patterns_distinct()
        &&& self.triggers_valid()
    }

    /// Whether `error` is what is wrong with the descriptor: the first thing
    /// that a reader finds who checks the operation names, then the patterns,
    /// then the subscriptions, each in reading order.
    pub open spec fn refused_with(&self, error: DescriptorError) -> bool {
        match error {
            DescriptorError::InvalidOperation { record, op } => {
                &&& record < self.entries().len()
                &&& op < self.entries()[record as int].1.len()
                &&& !self.op_ok(record as int, op as int)
                &&& forall|r: int, o: int|
                    0 <= r < self.entries().len() && 0 <= o < self.entries()[r].1.len() && (r
                        < record || (r == record && o < op)) ==> #[trigger] self.op_ok(r, o)
            },
            DescriptorError::DuplicatePattern { record } => {
                &&& self.ops_valid()
                &&& record < self.entries().len()
                &&& !self.pattern_new(record as int)
                &&& forall|r: int| 0 <= r < record ==> #[trigger] self.pattern_new(r)
            },
            DescriptorError::TriggerOutOfRange { event } => {
                &&& self.ops_valid()
                &&& self.patterns_distinct()
                &&& event < self.event.len()
                &&& !self.trigger_ok(event as int)
                &&& forall|e: int| 0 <= e < event ==> #[trigger] self.trigger_ok(e)
            },
        }
    }

    /// Checks the operation names: the first one, in reading order, that
    /// names no operation.
    fn check_ops(&self) -> (res: Result<(), DescriptorError>)
        ensures
            match res {
                Ok(()) => self.ops_valid(),
                Err(DescriptorError::InvalidOperation { record, op }) => {
                    &&& record < self.entries().len()
                    &&& op < self.entries()[record as int].1.len()
                    &&& !self.op_ok(record as int, op as int)
                    &&& forall|r: int, o: int|
                        0 <= r < self.entries().len() && 0 <= o < self.entries()[r].1.len() && (r
                            < record || (r == record && o < op)) ==> #[trigger] self.op_ok(r, o)
                },
                Err(_) => false,
            },
    {
        match &self.kvs {
            None => Ok(()),
            Some(entries) => {
                let mut record: usize = 0;
                while record < entries.len()
                    invariant
                        record <= entries.len(),
                        self.kvs == Some(*entries),
                        forall|r: int, o: int|
                            0 <= r < record && 0 <= o < self.entries()[r].1.len()
                                ==> #[trigger] self.op_ok(r, o),
                    decreases entries.len() - record,
                {
                    let ops = &entries[record].1;
                    let mut op: usize = 0;
                    while op < ops.len()
                        invariant
                            record < entries.len(),
                            op <= ops.len(),
                            self.kvs == Some(*entries),
                            *ops == entries[record as int].1,
                            forall|r: int, o: int|
                                0 <= r < record && 0 <= o < self.entries()[r].1.len()
                                    ==> #[trigger] self.op_ok(r, o),
                            forall|o: int| 0 <= o < op ==> #[trigger] self.op_ok(record as int, o),
                        decreases ops.len() - op,
                    {
                        let name = ops[op].as_str();
                        if !(same_text(name, "set") || same_text(name, "get") || same_text(
                            name,
                            "delete",
                        )) {
                            return Err(DescriptorError::InvalidOperation { record, op });
                        }
                        op += 1;
                    }
                    record += 1;
                }
                Ok(())
            },
        }
    }

    /// Checks the patterns: the first record that repeats an earlier one.
    fn check_patterns(&self) -> (res: Result<(), DescriptorError>)
        ensures
            match res {
                Ok(()) => self.patterns_distinct(),
                Err(DescriptorError::DuplicatePattern { record }) => {
                    &&& record < self.entries().len()
                    &&& !self.pattern_new(record as int)
                    &&& forall|r: int| 0 <= r < record ==> #[trigger] self.pattern_new(r)
                },
                Err(_) => false,
            },
    {
        match &self.kvs {
            None => Ok(()),
            Some(entries) => {
                let mut record: usize = 0;
                while record < entries.len()
                    invariant
                        record <= entries.len(),
                        self.kvs == Some(*entries),
                        forall|r: int| 0 <= r < record ==> #[trigger] self.pattern_new(r),
                    decreases entries.len() - record,
                {
                    let mut earlier: usize = 0;
                    while earlier < record
                        invariant
                            earlier <= record < entries.len(),
                            self.kvs == Some(*entries),
                            forall|r: int| 0 <= r < record ==> #[trigger] self.pattern_new(r),
                            forall|e: int|
                                0 <= e < earlier ==> (#[trigger] self.entries()[e]).0@
                                    != self.entries()[record as int].0@,
                        decreases record - earlier,
                    {
                        if same_text(entries[earlier].0.as_str(), entries[record].0.as_str()) {
                            assert(self.entries()[earlier as int].0@ == self.entries()[record as int].0@);
                            return Err(DescriptorError::DuplicatePattern { record });
                        }
                        earlier += 1;
                    }
                    record += 1;
                }
                Ok(())
            },
        }
    }

    /// Checks the subscriptions: the first one that names a record that is
    /// not there.
    fn check_triggers(&self) -> (res: Result<(), DescriptorError>)
        ensures
            match res {
                Ok(()) => self.triggers_valid(),
                Err(DescriptorError::TriggerOutOfRange { event }) => {
                    &&& event < self.event.len()
                    &&& !self.trigger_ok(event as int)
                    &&& forall|e: int| 0 <= e < event ==> #[trigger] self.trigger_ok(e)
                },
                Err(_) => false,
            },
    {
        let records: usize = match &self.kvs {
            Some(entries) => entries.len(),
            None => 0,
        };
        let mut event: usize = 0;
        while event < self.event.len()
            invariant
                event <= self.event.len(),
                records == self.entries().len(),
                forall|e: int| 0 <= e < event ==> #[trigger] self.trigger_ok(e),
            decreases self.event.len() - event,
        {
            match self.event[event] {
                FnEventYaml::KvSet { kv_set } => {
                    if kv_set >= records {
                        return Err(DescriptorError::TriggerOutOfRange { event });
                    }
                },
                _ => {},
            }
            event += 1;
        }
        Ok(())
    }

    /// Says whether the descriptor can be loaded, and if not, what is wrong
    /// with it.
    pub fn validate(&self) -> (res: Result<(), DescriptorError>)
        ensures
            res is Ok == self.valid(),
            res matches Err(error) ==> self.refused_with(error),
    {
        match self.check_ops() {
            Err(error) => {
                return Err(error);
            },
            Ok(()) => {},
        }
        match self.check_patterns() {
            Err(error) => {
                return Err(error);
            },
            Ok(()) => {},
        }
        self.check_triggers()
    }
}

/// Whether the operation names `ops` grant `ope`.
pub open spec fn grants(ops: Seq<String>, ope: KvOps) -> bool {
    exists|k: int| 0 <= k < ops.len() && (#[trigger] ops[k])@ == op_name(ope)
}

/// The rights of a function on the keys that fit one pattern.
#[derive(Debug)]
pub struct KvMeta {
    pub set: bool,
    pub get: bool,
    pub delete: bool,
    pub pattern: KeyPattern,
}

impl KvMeta {
    /// Whether the record grants `ope`.
    pub open spec fn allows(&self, ope: KvOps) -> bool {
        match ope {
            KvOps::Get => self.get,
            KvOps::Put => self.set,
            KvOps::Delete => self.delete,
        }
    }

    /// Whether the record grants `ope`.
    pub fn can(&self, ope: KvOps) -> (res: bool)
        ensures
            res == self.allows(ope),
    {
        match ope {
            KvOps::Get => self.get,
            KvOps::Put => self.set,
            KvOps::Delete => self.delete,
        }
    }

    /// The record for `pattern` with the rights that `ops` names.
    fn from_entry(pattern: &String, ops: &Vec<String>) -> (res: KvMeta)
        requires
            forall|k: int| 0 <= k < ops.len() ==> is_operation(#[trigger] ops[k]@),
        ensures
            res.pattern@ == pattern@,
            forall|ope: KvOps| res.allows(ope) == grants(ops@, ope),
    {
        let mut set = false;
        let mut get = false;
        let mut delete = false;
        let mut k: usize = 0;
        proof {
            reveal_strlit("set");
            reveal_strlit("get");
            reveal_strlit("delete");
        }
        while k < ops.len()
            invariant
                k <= ops.len(),
                "set"@.len() == 3 && "get"@.len() == 3 && "delete"@.len() == 6,
                "set"@[0] == 's' && "get"@[0] == 'g',
                forall|j: int| 0 <= j < ops.len() ==> is_operation(#[trigger] ops[j]@),
                set == grants(ops@.take(k as int), KvOps::Put),
                get == grants(ops@.take(k as int), KvOps::Get),
                delete == grants(ops@.take(k as int), KvOps::Delete),
            decreases ops.len() - k,
        {
            let ghost before = ops@.take(k as int);
            let ghost after = ops@.take(k as int + 1);
            let name = ops[k].as_str();
            assert(after[k as int]@ == name@);
            assert forall|ope: KvOps|
                grants(after, ope) == (grants(before, ope) || name@ == op_name(ope)) by {
                if grants(before, ope) {
                    let j = choose|j: int| 0 <= j < before.len() && (#[trigger] before[j])@ == op_name(ope);
                    assert(after[j]@ == op_name(ope));
                }
                if grants(after, ope) {
                    let j = choose|j: int| 0 <= j < after.len() && (#[trigger] after[j])@ == op_name(ope);
                    if j < k {
                        assert(before[j]@ == op_name(ope));
                    }
                }
            }
            if same_text(name, "set") {
                set = true;
            } else if same_text(name, "get") {
                get = true;
            } else {
                assert(name@ == "delete"@);
                delete = true;
            }
            k += 1;
        }
        assert(ops@.take(ops.len() as int) =~= ops@);
        KvMeta { set, get, delete, pattern: KeyPattern::new(pattern.clone()) }
    }
}

/// The metadata of one function.
#[derive(Debug)]
pub struct FnMeta {
    pub event: Vec<FnEvent>,
    pub args: Vec<FnArg>,
    pub kvs: Option<Vec<KvMeta>>,
}

/// Whether `record` lets `ope` through on the key `key`: its pattern's
/// matcher can be built, `key` fits the pattern, and the record grants `ope`.
pub open spec fn record_fits(record: KvMeta, key: Seq<char>, ope: KvOps) -> bool {
    record.pattern.compiles() && record.pattern.matches(key) && record.allows(ope)
}

impl FnMeta {
    /// The permission records; none where the function declares no keys.
    pub open spec fn records(&self) -> Seq<KvMeta> {
        match self.kvs {
            Some(records) => records@,
            None => Seq::empty(),
        }
    }

    /// Whether every subscription to a key pattern names a record that is
    /// there.
    pub open spec fn wf(&self) -> bool {
        forall|e: int|
            0 <= e < self.event.len() ==> ((#[trigger] self.event[e]) matches FnEvent::KvSet(index)
                ==> index < self.records().len())
    }

    /// Whether this is what `yaml` describes: the same subscriptions and
    /// arguments, and for each permission entry, in the same order, a record
    /// for its pattern with the rights that its operation names grant.
    pub open spec fn loaded_from(&self, yaml: FnMetaYaml) -> bool {
        &&& self.event@ == yaml.event@.map_values(|e: FnEventYaml| event_of(e))
        &&& self.args@ == yaml.args@.map_values(|a: FnArgYaml| arg_of(a))
        &&& self.kvs is Some == yaml.kvs is Some
        &&& self.records().len() == yaml.entries().len()
        &&& forall|i: int|
            0 <= i < self.records().len() ==> {
                &&& (#[trigger] self.records()[i]).pattern@ == yaml.entries()[i].0@
                &&& forall|ope: KvOps|
                    self.records()[i].allows(ope) == grants(yaml.entries()[i].1@, ope)
            }
    }

    /// The metadata that `yaml` describes.
    pub fn from(yaml: FnMetaYaml) -> (res: FnMeta)
        requires
            yaml.valid(),
        ensures
            res.wf(),
            res.loaded_from(yaml),
    {
        Self::from_yaml(&yaml)
    }

    /// The metadata that `yaml` describes, from a borrowed descriptor.
    pub fn from_yaml(yaml: &FnMetaYaml) -> (res: FnMeta)
        requires
            yaml.valid(),
        ensures
            res.wf(),
            res.loaded_from(*yaml),
    {
        let kvs = match &yaml.kvs {
            None => None,
            Some(entries) => {
                let mut records: Vec<KvMeta> = Vec::new();
                let mut i: usize = 0;
                while i < entries.len()
                    invariant
                        i <= entries.len(),
                        yaml.kvs == Some(*entries),
                        yaml.ops_valid(),
                        records.len() == i,
                        forall|j: int|
                            0 <= j < i ==> {
                                &&& (#[trigger] records[j]).pattern@ == entries[j].0@
                                &&& forall|ope: KvOps|
                                    records[j].allows(ope) == grants(entries[j].1@, ope)
                            },
                    decreases entries.len() - i,
                {
                    assert forall|k: int| 0 <= k < entries[i as int].1.len() implies is_operation(
                        #[trigger] entries[i as int].1[k]@,
                    ) by {
                        assert(yaml.op_ok(i as int, k));
                    }
                    records.push(KvMeta::from_entry(&entries[i].0, &entries[i].1));
                    i += 1;
                }
                Some(records)
            },
        };
        let mut event: Vec<FnEvent> = Vec::new();
        let mut e: usize = 0;
        while e < yaml.event.len()
            invariant
                e <= yaml.event.len(),
                event.len() == e,
                forall|j: int| 0 <= j < e ==> #[trigger] event[j] == event_of(yaml.event[j]),
            decreases yaml.event.len() - e,
        {
            event.push(FnEvent::from(yaml.event[e]));
            e += 1;
        }
        let mut args: Vec<FnArg> = Vec::new();
        let mut a: usize = 0;
        while a < yaml.args.len()
            invariant
                a <= yaml.args.len(),
                args.len() == a,
                forall|j: int| 0 <= j < a ==> #[trigger] args[j] == arg_of(yaml.args[j]),
            decreases yaml.args.len() - a,
        {
            args.push(FnArg::from(yaml.args[a]));
            a += 1;
        }
        let res = FnMeta { event, args, kvs };
        proof {
            assert(res.event@ =~= yaml.event@.map_values(|e: FnEventYaml| event_of(e)));
            assert(res.args@ =~= yaml.args@.map_values(|a: FnArgYaml| arg_of(a)));
            assert forall|e: int| 0 <= e < res.event.len() implies ((
            #[trigger] res.event[e]) matches FnEvent::KvSet(index) ==> index
                < res.records().len()) by {
                assert(yaml.trigger_ok(e));
            }
        }
        res
    }

    /// Whether record `i` is the first that lets `ope` through on the key
    /// with the bytes `key`. A key that is no UTF-8 text fits no record.
    pub open spec fn first_fit(&self, key: Seq<u8>, ope: KvOps, i: int) -> bool {
        &&& valid_utf8(key)
        &&& 0 <= i < self.records().len()
        &&& record_fits(self.records()[i], decode_utf8(key), ope)
        &&& forall|j: int|
            0 <= j < i ==> !record_fits(#[trigger] self.records()[j], decode_utf8(key), ope)
    }

    /// The pattern of the first permission record, in declaration order,
    /// that `key` fits and that grants `ope`; `None` where there is no such
    /// record, and for a key that is no UTF-8 text. A record whose pattern's
    /// matcher cannot be built fits no key.
    pub fn match_key(&self, key: &[u8], ope: KvOps) -> (res: Option<KeyPattern>)
        ensures
            match res {
                Some(pattern) => exists|i: int|
                    self.first_fit(key@, ope, i) && pattern == (#[trigger] self.records()[i]).pattern,
                None => !valid_utf8(key@) || forall|i: int|
                    0 <= i < self.records().len() ==> !record_fits(
                        #[trigger] self.records()[i],
                        decode_utf8(key@),
                        ope,
                    ),
            },
    {
        let text = match utf8_text(key) {
            Some(text) => text,
            None => {
                return None;
            },
        };
        match &self.kvs {
            None => None,
            Some(kvs) => {
                let mut i: usize = 0;
                while i < kvs.len()
                    invariant
                        i <= kvs.len(),
                        self.kvs == Some(*kvs),
                        valid_utf8(key@),
                        text@ == decode_utf8(key@),
                        forall|j: int|
                            0 <= j < i ==> !record_fits(#[trigger] self.records()[j], text@, ope),
                    decreases kvs.len() - i,
                {
                    let kv = &kvs[i];
                    let fits = match kv.pattern.try_match_key(text) {
                        Some(fits) => fits,
                        None => false,
                    };
                    if fits && kv.can(ope) {
                        assert(self.first_fit(key@, ope, i as int));
                        return Some(kv.pattern.clone());
                    }
                    i += 1;
                }
                None
            },
        }
    }

    /// The permission record with index `index`, if there is one.
    pub fn try_get_kv_meta_by_index(&self, index: usize) -> (res: Option<&KvMeta>)
        ensures
            match res {
                Some(record) => index < self.records().len() && *record == self.records()[
                    index as int
                ],
                None => index >= self.records().len(),
            },
    {
        match &self.kvs {
            Some(kvs) => {
                if index < kvs.len() {
                    Some(&kvs[index])
                } else {
                    None
                }
            },
            None => None,
        }
    }

    /// The permission record with index `index`.
    pub fn get_kv_meta_by_index_unwrap(&self, index: usize) -> (res: &KvMeta)
        requires
            index < self.records().len(),
        ensures
            *res == self.records()[index as int],
    {
        match self.try_get_kv_meta_by_index(index) {
            Some(record) => record,
            None => unreached(),
        }
    }

    /// Whether the subscription at position `e` is to writes of keys that
    /// fit the pattern with the text `pattern`.
    pub open spec fn triggers_on(&self, e: int, pattern: Seq<char>) -> bool {
        self.event[e] matches FnEvent::KvSet(index) && index < self.records().len()
            && self.records()[index as int].pattern@ == pattern
    }

    /// The permission record behind the first subscription, in declaration
    /// order, that a write to keys of `pattern` triggers. Only writes
    /// trigger: for any other operation the answer is `None`. Patterns are
    /// compared by their text.
    pub fn find_will_trigger_kv_event(&self, pattern: &KeyPattern, ope: KvOps) -> (res: Option<
        &KvMeta,
    >)
        requires
            self.wf(),
        ensures
            match res {
                Some(record) => ope == KvOps::Put && exists|e: int|
                    {
                        &&& 0 <= e < self.event.len()
                        &&& #[trigger] self.triggers_on(e, pattern@)
                        &&& forall|earlier: int|
                            0 <= earlier < e ==> !#[trigger] self.triggers_on(earlier, pattern@)
                        &&& self.event[e] matches FnEvent::KvSet(index) && *record
                            == self.records()[index as int]
                    },
                None => ope != KvOps::Put || forall|e: int|
                    0 <= e < self.event.len() ==> !#[trigger] self.triggers_on(e, pattern@),
            },
    {
        match ope {
            KvOps::Put => {},
            _ => {
                return None;
            },
        }
        let mut e: usize = 0;
        while e < self.event.len()
            invariant
                e <= self.event.len(),
                self.wf(),
                ope == KvOps::Put,
                forall|earlier: int|
                    0 <= earlier < e ==> !#[trigger] self.triggers_on(earlier, pattern@),
            decreases self.event.len() - e,
        {
            match self.event[e] {
                FnEvent::KvSet(index) => {
                    let record = self.get_kv_meta_by_index_unwrap(index);
                    if same_text(record.pattern.0.as_str(), pattern.0.as_str()) {
                        assert(self.triggers_on(e as int, pattern@));
                        return Some(record);
                    }
                },
                _ => {},
            }
            e += 1;
        }
        None
    }
}

/// Not verified: `std::str::from_utf8`, which gives the text that `bytes`
/// encode, and fails exactly where they are no valid UTF-8.
#[verifier::external_body]
fn utf8_text(bytes: &[u8]) -> (res: Option<&str>)
    ensures
        res is Some == valid_utf8(bytes@),
        res matches Some(text) ==> text@ == decode_utf8(bytes@),
{
    std::str::from_utf8(bytes).ok()
}

} // verus!
