//! The registry of applications and the index of their triggers: for each
//! key pattern, the functions that a write to a fitting key sets off.

use crate::meta::{FnEvent, FnMeta};
use crate::table::AppMetaFunction;
use crate::text::same_text;
use vstd::prelude::*;

verus! {

/// One subscription to writes: the function `func` of the application `app`
/// is set off by writes to keys that fit `pattern`.
pub struct Trigger {
    pub pattern: Seq<char>,
    pub app: Seq<char>,
    pub func: Seq<char>,
}

/// The subscriptions to writes among the first `upto` subscriptions of one
/// function, in their order.
pub open spec fn fn_triggers(app: Seq<char>, func: Seq<char>, meta: FnMeta, upto: int) -> Seq<
    Trigger,
>
    decreases upto,
{
    if upto <= 0 {
        Seq::empty()
    } else {
        let before = fn_triggers(app, func, meta, upto - 1);
        match meta.event[upto - 1] {
            FnEvent::KvSet(index) => before.push(
                Trigger { pattern: meta.records()[index as int].pattern@, app, func },
            ),
            _ => before,
        }
    }
}

/// The subscriptions to writes of the first `upto` functions of one
/// application, in the order of its table.
pub open spec fn app_triggers(app: Seq<char>, table: Seq<(String, FnMeta)>, upto: int) -> Seq<
    Trigger,
>
    decreases upto,
{
    if upto <= 0 {
        Seq::empty()
    } else {
        app_triggers(app, table, upto - 1) + fn_triggers(
            app,
            table[upto - 1].0@,
            table[upto - 1].1,
            table[upto - 1].1.event.len() as int,
        )
    }
}

/// The subscriptions to writes of the first `upto` applications, in the
/// order in which they are discovered.
pub open spec fn all_triggers(apps: Seq<(String, AppMetaFunction)>, upto: int) -> Seq<Trigger>
    decreases upto,
{
    if upto <= 0 {
        Seq::empty()
    } else {
        all_triggers(apps, upto - 1) + app_triggers(
            apps[upto - 1].0@,
            apps[upto - 1].1@,
            apps[upto - 1].1@.len() as int,
        )
    }
}

/// The application and function of each of `triggers` that is on `pattern`,
/// in their order; one entry for each, also where two are alike.
pub open spec fn subscribers_among(triggers: Seq<Trigger>, pattern: Seq<char>) -> Seq<
    (Seq<char>, Seq<char>),
>
    decreases triggers.len(),
{
    if triggers.len() == 0 {
        Seq::empty()
    } else {
        let before = subscribers_among(triggers.drop_last(), pattern);
        if triggers.last().pattern == pattern {
            before.push((triggers.last().app, triggers.last().func))
        } else {
            before
        }
    }
}

/// A subscriber list after `more` subscribers have been found: the known
/// ones first. A pattern without subscribers has no list.
pub open spec fn extended(
    known: Option<Seq<(Seq<char>, Seq<char>)>>,
    more: Seq<(Seq<char>, Seq<char>)>,
) -> Option<Seq<(Seq<char>, Seq<char>)>> {
    if more.len() == 0 {
        known
    } else {
        match known {
            Some(list) => Some(list + more),
            None => Some(more),
        }
    }
}

/// The application that is known under a name after the first `upto` of
/// `apps` have been registered: the last of them with that name, else the one
/// that was known before.
pub open spec fn app_after(
    known: Option<AppMetaFunction>,
    apps: Seq<(String, AppMetaFunction)>,
    name: Seq<char>,
    upto: int,
) -> Option<AppMetaFunction>
    decreases upto,
{
    if upto <= 0 {
        known
    } else if apps[upto - 1].0@ == name {
        Some(apps[upto - 1].1)
    } else {
        app_after(known, apps, name, upto - 1)
    }
}

/// Whether no two entries have the same key.
pub open spec fn keys_distinct<V>(entries: Seq<(String, V)>) -> bool {
    forall|i: int, j: int|
        0 <= i < j < entries.len() ==> (#[trigger] entries[i]).0@ != (#[trigger] entries[j]).0@
}

/// The position of the entry with key `key`, if there is one.
pub open spec fn position<V>(entries: Seq<(String, V)>, key: Seq<char>) -> Option<int> {
    if exists|i: int| 0 <= i < entries.len() && (#[trigger] entries[i]).0@ == key {
        Some(choose|i: int| 0 <= i < entries.len() && (#[trigger] entries[i]).0@ == key)
    } else {
        None
    }
}

/// Among distinct keys, an entry with the key is the entry with the key.
pub proof fn lemma_position<V>(entries: Seq<(String, V)>, key: Seq<char>, i: int)
    requires
        keys_distinct(entries),
        0 <= i < entries.len(),
        entries[i].0@ == key,
    ensures
        position(entries, key) == Some(i),
{
    let found = choose|k: int| 0 <= k < entries.len() && (#[trigger] entries[k]).0@ == key;
    if found < i {
        assert(entries[found].0@ != entries[i].0@);
    } else if i < found {
        assert(entries[i].0@ != entries[found].0@);
    }
}

/// The subscribers on a pattern among two runs of triggers are those of the
/// first run, then those of the second.
pub proof fn lemma_subscribers_concat(a: Seq<Trigger>, b: Seq<Trigger>, pattern: Seq<char>)
    ensures
        subscribers_among(a + b, pattern) == subscribers_among(a, pattern) + subscribers_among(
            b,
            pattern,
        ),
    decreases b.len(),
{
    if b.len() == 0 {
        assert(a + b =~= a);
        assert(subscribers_among(a, pattern) + subscribers_among(b, pattern) =~= subscribers_among(
            a,
            pattern,
        ));
    } else {
        assert((a + b).drop_last() =~= a + b.drop_last());
        assert((a + b).last() == b.last());
        lemma_subscribers_concat(a, b.drop_last(), pattern);
        let head = subscribers_among(a, pattern);
        let tail = subscribers_among(b.drop_last(), pattern);
        if b.last().pattern == pattern {
            assert((head + tail).push((b.last().app, b.last().func)) =~= head + tail.push(
                (b.last().app, b.last().func),
            ));
        }
    }
}

/// Extending a list twice extends it by both runs, one after the other.
pub proof fn lemma_extended_twice(
    known: Option<Seq<(Seq<char>, Seq<char>)>>,
    a: Seq<(Seq<char>, Seq<char>)>,
    b: Seq<(Seq<char>, Seq<char>)>,
)
    ensures
        extended(extended(known, a), b) == extended(known, a + b),
{
    if a.len() == 0 {
        assert(a + b =~= b);
    } else if b.len() == 0 {
        assert(a + b =~= a);
    } else {
        match known {
            Some(list) => {
                assert((list + a) + b =~= list + (a + b));
            },
            None => {},
        }
    }
}

/// The registry: every application with its function table, and for every
/// key pattern that some function subscribes to, the subscribers.
#[derive(Debug)]
pub struct AppMetas {
    app_metas: Vec<(String, AppMetaFunction)>,
    pattern_2_app_fn: Vec<(String, Vec<(String, String)>)>,
}

impl AppMetas {
    /// The applications, each name with its table.
    pub closed spec fn apps(&self) -> Seq<(String, AppMetaFunction)> {
        self.app_metas@
    }

    /// The index, each pattern with its subscribers.
    pub closed spec fn index(&self) -> Seq<(String, Vec<(String, String)>)> {
        self.pattern_2_app_fn@
    }

    /// Whether no application and no pattern stands twice, every pattern in
    /// the index has a subscriber, and every table is well formed.
    pub open spec fn wf(&self) -> bool {
        &&& keys_distinct(self.apps())
        &&& keys_distinct(self.index())
        &&& forall|i: int| 0 <= i < self.index().len() ==> (#[trigger] self.index()[i]).1.len() > 0
        &&& forall|i: int| 0 <= i < self.apps().len() ==> (#[trigger] self.apps()[i]).1.wf()
    }

    /// The table of the application `name`, if it is registered.
    pub open spec fn app(&self, name: Seq<char>) -> Option<AppMetaFunction> {
        match position(self.apps(), name) {
            Some(i) => Some(self.apps()[i].1),
            None => None,
        }
    }

    /// The subscribers on `pattern`, as pairs of application and function in
    /// the order of their discovery; `None` where there is none.
    pub open spec fn subscribers(&self, pattern: Seq<char>) -> Option<Seq<(Seq<char>, Seq<char>)>> {
        match position(self.index(), pattern) {
            Some(i) => Some(self.index()[i].1.deep_view()),
            None => None,
        }
    }

    /// The registry without applications.
    pub fn new() -> (res: Self)
        ensures
            res.wf(),
            forall|name: Seq<char>| res.app(name) is None,
            forall|pattern: Seq<char>| res.subscribers(pattern) is None,
    {
        AppMetas { app_metas: Vec::new(), pattern_2_app_fn: Vec::new() }
    }

    /// The table of the application `app`, if it is registered.
    pub fn get_app_meta(&self, app: &str) -> (res: Option<&AppMetaFunction>)
        requires
            self.wf(),
        ensures
            match res {
                Some(table) => self.app(app@) == Some(*table) && table.wf(),
                None => self.app(app@) is None,
            },
    {
        let mut i: usize = 0;
        while i < self.app_metas.len()
            invariant
                i <= self.app_metas.len(),
                self.wf(),
                forall|j: int| 0 <= j < i ==> (#[trigger] self.apps()[j]).0@ != app@,
            decreases self.app_metas.len() - i,
        {
            if same_text(self.app_metas[i].0.as_str(), app) {
                proof {
                    lemma_position(self.apps(), app@, i as int);
                }
                return Some(&self.app_metas[i].1);
            }
            i += 1;
        }
        None
    }

    /// The functions that a write to a key of `pattern` sets off, as pairs of
    /// application and function in the order of their discovery; `None`
    /// where no function subscribes to that pattern. Patterns are compared
    /// by their text.
    pub fn get_pattern_triggers(&self, pattern: &str) -> (res: Option<&Vec<(String, String)>>)
        requires
            self.wf(),
        ensures
            res.deep_view() == self.subscribers(pattern@),
    {
        let mut i: usize = 0;
        while i < self.pattern_2_app_fn.len()
            invariant
                i <= self.pattern_2_app_fn.len(),
                self.wf(),
                forall|j: int| 0 <= j < i ==> (#[trigger] self.index()[j]).0@ != pattern@,
            decreases self.pattern_2_app_fn.len() - i,
        {
            if same_text(self.pattern_2_app_fn[i].0.as_str(), pattern) {
                proof {
                    lemma_position(self.index(), pattern@, i as int);
                }
                return Some(&self.pattern_2_app_fn[i].1);
            }
            i += 1;
        }
        None
    }

    /// Notes that the function `func` of `app` subscribes to `pattern`.
    #[verifier::loop_isolation(false)]
    fn subscribe(&mut self, pattern: &String, app: &String, func: &String)
        requires
            old(self).wf(),
        ensures
            final(self).wf(),
            final(self).apps() == old(self).apps(),
            forall|q: Seq<char>|
                #[trigger] final(self).subscribers(q) == if q == pattern@ {
                    extended(old(self).subscribers(q), seq![(app@, func@)])
                } else {
                    old(self).subscribers(q)
                },
    {
        let ghost before = self.index();
        let pair = (app.clone(), func.clone());
        let mut i: usize = 0;
        while i < self.pattern_2_app_fn.len()
            invariant
                i <= self.pattern_2_app_fn.len(),
                *self == *old(self),
                forall|j: int| 0 <= j < i ==> (#[trigger] self.index()[j]).0@ != pattern@,
            decreases self.pattern_2_app_fn.len() - i,
        {
            if same_text(self.pattern_2_app_fn[i].0.as_str(), pattern.as_str()) {
                let mut entry = self.pattern_2_app_fn.remove(i);
                let ghost known = entry.1.deep_view();
                entry.1.push(pair);
                assert(entry.1.deep_view() =~= known + seq![(app@, func@)]);
                self.pattern_2_app_fn.insert(i, entry);
                proof {
                    let after = self.index();
                    assert(after.len() == before.len());
                    assert forall|k: int| 0 <= k < after.len() implies (#[trigger] after[k]).0@
                        == before[k].0@ by {}
                    assert forall|k: int| 0 <= k < after.len() && k != i implies #[trigger] after[k]
                        == before[k] by {}
                    assert forall|q: Seq<char>| #[trigger]
                        self.subscribers(q) == if q == pattern@ {
                            extended(old(self).subscribers(q), seq![(app@, func@)])
                        } else {
                            old(self).subscribers(q)
                        } by {
                        match position(before, q) {
                            Some(k) => {
                                assert(after[k].0@ == q);
                                lemma_position(after, q, k);
                                lemma_position(before, pattern@, i as int);
                            },
                            None => {
                                if position(after, q) is Some {
                                    let k = position(after, q)->0;
                                    assert(before[k].0@ == q);
                                }
                                lemma_position(before, pattern@, i as int);
                            },
                        }
                    }
                }
                return ;
            }
            i += 1;
        }
        let mut list: Vec<(String, String)> = Vec::new();
        list.push(pair);
        assert(list.deep_view() =~= seq![(app@, func@)]);
        self.pattern_2_app_fn.push((pattern.clone(), list));
        proof {
            let after = self.index();
            let last = before.len() as int;
            assert forall|k: int| 0 <= k < before.len() implies #[trigger] after[k] == before[k] by {}
            assert forall|q: Seq<char>| #[trigger]
                self.subscribers(q) == if q == pattern@ {
                    extended(old(self).subscribers(q), seq![(app@, func@)])
                } else {
                    old(self).subscribers(q)
                } by {
                if q == pattern@ {
                    lemma_position(after, q, last);
                    if position(before, q) is Some {
                        let k = position(before, q)->0;
                        assert(before[k].0@ == pattern@);
                    }
                } else {
                    match position(before, q) {
                        Some(k) => {
                            assert(after[k].0@ == q);
                            lemma_position(after, q, k);
                        },
                        None => {
                            if position(after, q) is Some {
                                let k = position(after, q)->0;
                                assert(k < last);
                                assert(before[k].0@ == q);
                            }
                        },
                    }
                }
            }
        }
    }

    /// Notes every subscription to writes of the function `func` of `app`.
    #[verifier::loop_isolation(false)]
    fn index_fn(&mut self, app: &String, func: &String, meta: &FnMeta)
        requires
            old(self).wf(),
            meta.wf(),
        ensures
            final(self).wf(),
            final(self).apps() == old(self).apps(),
            forall|q: Seq<char>|
                #[trigger] final(self).subscribers(q) == extended(
                    old(self).subscribers(q),
                    subscribers_among(fn_triggers(app@, func@, *meta, meta.event.len() as int), q),
                ),
    {
        let mut e: usize = 0;
        while e < meta.event.len()
            invariant
                e <= meta.event.len(),
                self.wf(),
                self.apps() == old(self).apps(),
                forall|q: Seq<char>|
                    #[trigger] self.subscribers(q) == extended(
                        old(self).subscribers(q),
                        subscribers_among(fn_triggers(app@, func@, *meta, e as int), q),
                    ),
            decreases meta.event.len() - e,
        {
            let ghost prev = *self;
            let ghost log = fn_triggers(app@, func@, *meta, e as int);
            match meta.event[e] {
                FnEvent::KvSet(index) => {
                    let record = meta.get_kv_meta_by_index_unwrap(index);
                    self.subscribe(&record.pattern.0, app, func);
                    proof {
                        let t = Trigger { pattern: record.pattern@, app: app@, func: func@ };
                        assert(fn_triggers(app@, func@, *meta, e + 1) == log.push(t));
                        assert(log.push(t).drop_last() =~= log);
                        assert forall|q: Seq<char>| #[trigger]
                            self.subscribers(q) == extended(
                                old(self).subscribers(q),
                                subscribers_among(log.push(t), q),
                            ) by {
                            let known = subscribers_among(log, q);
                            if q == record.pattern@ {
                                assert(self.subscribers(q) == extended(
                                    prev.subscribers(q),
                                    seq![(app@, func@)],
                                ));
                                lemma_extended_twice(
                                    old(self).subscribers(q),
                                    known,
                                    seq![(app@, func@)],
                                );
                                assert(known.push((app@, func@)) =~= known + seq![(app@, func@)]);
                            } else {
                                assert(self.subscribers(q) == prev.subscribers(q));
                            }
                        }
                    }
                },
                _ => {
                    assert(fn_triggers(app@, func@, *meta, e + 1) == log);
                },
            }
            e += 1;
        }
    }

    /// Notes every subscription to writes of the application `app`.
    #[verifier::loop_isolation(false)]
    fn index_app(&mut self, app: &String, table: &AppMetaFunction)
        requires
            old(self).wf(),
            table.wf(),
        ensures
            final(self).wf(),
            final(self).apps() == old(self).apps(),
            forall|q: Seq<char>|
                #[trigger] final(self).subscribers(q) == extended(
                    old(self).subscribers(q),
                    subscribers_among(app_triggers(app@, table@, table@.len() as int), q),
                ),
    {
        let mut f: usize = 0;
        while f < table.len()
            invariant
                f <= table@.len(),
                self.wf(),
                self.apps() == old(self).apps(),
                forall|q: Seq<char>|
                    #[trigger] self.subscribers(q) == extended(
                        old(self).subscribers(q),
                        subscribers_among(app_triggers(app@, table@, f as int), q),
                    ),
            decreases table@.len() - f,
        {
            let ghost prev = *self;
            let ghost log = app_triggers(app@, table@, f as int);
            let entry = table.entry(f);
            self.index_fn(app, entry.0, entry.1);
            proof {
                let found = fn_triggers(app@, entry.0@, *entry.1, entry.1.event.len() as int);
                assert(app_triggers(app@, table@, f + 1) == log + found);
                assert forall|q: Seq<char>| #[trigger]
                    self.subscribers(q) == extended(
                        old(self).subscribers(q),
                        subscribers_among(log + found, q),
                    ) by {
                    assert(self.subscribers(q) == extended(
                        prev.subscribers(q),
                        subscribers_among(found, q),
                    ));
                    lemma_subscribers_concat(log, found, q);
                    lemma_extended_twice(
                        old(self).subscribers(q),
                        subscribers_among(log, q),
                        subscribers_among(found, q),
                    );
                }
            }
            f += 1;
        }
    }

    /// Registers `table` as the application `name`, in place of an
    /// application that was registered under that name.
    #[verifier::loop_isolation(false)]
    fn insert_app(&mut self, name: String, table: AppMetaFunction)
        requires
            old(self).wf(),
            table.wf(),
        ensures
            final(self).wf(),
            final(self).index() == old(self).index(),
            forall|n: Seq<char>|
                #[trigger] final(self).app(n) == if n == name@ {
                    Some(table)
                } else {
                    old(self).app(n)
                },
    {
        let ghost before = self.apps();
        let mut i: usize = 0;
        while i < self.app_metas.len()
            invariant
                i <= self.app_metas.len(),
                *self == *old(self),
                forall|j: int| 0 <= j < i ==> (#[trigger] self.apps()[j]).0@ != name@,
            decreases self.app_metas.len() - i,
        {
            if same_text(self.app_metas[i].0.as_str(), name.as_str()) {
                self.app_metas.set(i, (name, table));
                proof {
                    let after = self.apps();
                    assert forall|k: int| 0 <= k < after.len() implies (#[trigger] after[k]).0@
                        == before[k].0@ by {}
                    assert forall|n: Seq<char>| #[trigger]
                        self.app(n) == if n == name@ {
                            Some(table)
                        } else {
                            old(self).app(n)
                        } by {
                        lemma_position(after, name@, i as int);
                        match position(before, n) {
                            Some(k) => {
                                assert(after[k].0@ == n);
                                lemma_position(after, n, k);
                                lemma_position(before, name@, i as int);
                            },
                            None => {
                                if position(after, n) is Some {
                                    let k = position(after, n)->0;
                                    assert(before[k].0@ == n);
                                }
                            },
                        }
                    }
                }
                return ;
            }
            i += 1;
        }
        self.app_metas.push((name, table));
        proof {
            let after = self.apps();
            let last = before.len() as int;
            assert forall|k: int| 0 <= k < before.len() implies #[trigger] after[k] == before[k] by {}
            assert forall|n: Seq<char>| #[trigger]
                self.app(n) == if n == name@ {
                    Some(table)
                } else {
                    old(self).app(n)
                } by {
                if n == name@ {
                    lemma_position(after, n, last);
                } else {
                    match position(before, n) {
                        Some(k) => {
                            assert(after[k].0@ == n);
                            lemma_position(after, n, k);
                        },
                        None => {
                            if position(after, n) is Some {
                                let k = position(after, n)->0;
                                assert(k < last);
                                assert(before[k].0@ == n);
                            }
                        },
                    }
                }
            }
        }
    }

    /// Registers the applications `apps`, in their order, and notes their
    /// subscriptions to writes. Every pattern's subscriber list grows by the
    /// subscribers found, in the order of discovery: application by
    /// application, function by function, subscription by subscription. An
    /// application takes the place of one registered under the same name;
    /// what the index holds of the earlier one stays.
    #[verifier::loop_isolation(false)]
    pub fn load_all_app_meta(&mut self, apps: Vec<(String, AppMetaFunction)>)
        requires
            old(self).wf(),
            forall|i: int| 0 <= i < apps.len() ==> (#[trigger] apps[i]).1.wf(),
        ensures
            final(self).wf(),
            forall|q: Seq<char>|
                #[trigger] final(self).subscribers(q) == extended(
                    old(self).subscribers(q),
                    subscribers_among(all_triggers(apps@, apps.len() as int), q),
                ),
            forall|n: Seq<char>|
                #[trigger] final(self).app(n) == app_after(
                    old(self).app(n),
                    apps@,
                    n,
                    apps.len() as int,
                ),
    {
        let ghost all = apps@;
        let ghost mut done: int = 0;
        let mut rest = apps;
        assert(all.skip(0) =~= all);
        while rest.len() > 0
            invariant
                0 <= done <= all.len(),
                rest@ == all.skip(done),
                self.wf(),
                forall|q: Seq<char>|
                    #[trigger] self.subscribers(q) == extended(
                        old(self).subscribers(q),
                        subscribers_among(all_triggers(all, done), q),
                    ),
                forall|n: Seq<char>|
                    #[trigger] self.app(n) == app_after(old(self).app(n), all, n, done),
            decreases rest.len(),
        {
            let ghost prev = *self;
            let ghost log = all_triggers(all, done);
            let entry = rest.remove(0);
            assert(entry == all[done]);
            assert(rest@ =~= all.skip(done + 1));
            self.index_app(&entry.0, &entry.1);
            let ghost indexed = *self;
            self.insert_app(entry.0, entry.1);
            proof {
                let found = app_triggers(entry.0@, entry.1@, entry.1@.len() as int);
                assert(all_triggers(all, done + 1) == log + found);
                assert forall|q: Seq<char>| #[trigger]
                    self.subscribers(q) == extended(
                        old(self).subscribers(q),
                        subscribers_among(log + found, q),
                    ) by {
                    assert(self.subscribers(q) == indexed.subscribers(q));
                    assert(indexed.subscribers(q) == extended(
                        prev.subscribers(q),
                        subscribers_among(found, q),
                    ));
                    lemma_subscribers_concat(log, found, q);
                    lemma_extended_twice(
                        old(self).subscribers(q),
                        subscribers_among(log, q),
                        subscribers_among(found, q),
                    );
                }
                assert forall|n: Seq<char>| #[trigger]
                    self.app(n) == app_after(old(self).app(n), all, n, done + 1) by {
                    assert(indexed.app(n) == prev.app(n));
                }
                done = done + 1;
            }
        }
    }
}

/// The subscriptions of a function hold each of its subscriptions to writes:
/// the subscribers on a pattern that one of the first `upto` subscriptions
/// is on include the function.
pub proof fn lemma_fn_subscribes(
    app: Seq<char>,
    func: Seq<char>,
    meta: FnMeta,
    upto: int,
    e: int,
    pattern: Seq<char>,
)
    requires
        0 <= e < upto <= meta.event.len(),
        meta.triggers_on(e, pattern),
    ensures
        subscribers_among(fn_triggers(app, func, meta, upto), pattern).contains((app, func)),
    decreases upto,
{
    let before = fn_triggers(app, func, meta, upto - 1);
    let known = subscribers_among(before, pattern);
    if e < upto - 1 {
        lemma_fn_subscribes(app, func, meta, upto - 1, e, pattern);
        let i = choose|i: int| 0 <= i < known.len() && known[i] == (app, func);
        match meta.event[upto - 1] {
            FnEvent::KvSet(index) => {
                let t = Trigger { pattern: meta.records()[index as int].pattern@, app, func };
                assert(before.push(t).drop_last() =~= before);
                let now = subscribers_among(before.push(t), pattern);
                assert(now[i] == (app, func));
            },
            _ => {},
        }
    } else {
        let t = Trigger { pattern, app, func };
        assert(fn_triggers(app, func, meta, upto) == before.push(t));
        assert(before.push(t).drop_last() =~= before);
        assert(known.push((app, func))[known.len() as int] == (app, func));
    }
}

/// The subscriptions of an application hold those of each of its functions.
pub proof fn lemma_app_subscribes(
    app: Seq<char>,
    table: Seq<(String, FnMeta)>,
    upto: int,
    f: int,
    e: int,
    pattern: Seq<char>,
)
    requires
        0 <= f < upto <= table.len(),
        0 <= e < table[f].1.event.len(),
        table[f].1.triggers_on(e, pattern),
    ensures
        subscribers_among(app_triggers(app, table, upto), pattern).contains((app, table[f].0@)),
    decreases upto,
{
    let before = app_triggers(app, table, upto - 1);
    let last = fn_triggers(
        app,
        table[upto - 1].0@,
        table[upto - 1].1,
        table[upto - 1].1.event.len() as int,
    );
    lemma_subscribers_concat(before, last, pattern);
    let head = subscribers_among(before, pattern);
    let tail = subscribers_among(last, pattern);
    let pair = (app, table[f].0@);
    if f < upto - 1 {
        lemma_app_subscribes(app, table, upto - 1, f, e, pattern);
        let i = choose|i: int| 0 <= i < head.len() && head[i] == pair;
        assert((head + tail)[i] == pair);
    } else {
        lemma_fn_subscribes(app, table[f].0@, table[f].1, table[f].1.event.len() as int, e, pattern);
        let i = choose|i: int| 0 <= i < tail.len() && tail[i] == pair;
        assert((head + tail)[head.len() + i] == pair);
    }
}

/// Two applications that each subscribe a function to the same pattern are
/// both on that pattern's subscriber list after they are loaded, the one
/// that was discovered first before the other.
pub proof fn lemma_both_subscribers_in_discovery_order(
    first: (String, AppMetaFunction),
    second: (String, AppMetaFunction),
    pattern: Seq<char>,
    f: int,
    e: int,
    g: int,
    d: int,
)
    requires
        0 <= f < first.1@.len(),
        0 <= e < first.1@[f].1.event.len(),
        first.1@[f].1.triggers_on(e, pattern),
        0 <= g < second.1@.len(),
        0 <= d < second.1@[g].1.event.len(),
        second.1@[g].1.triggers_on(d, pattern),
    ensures
        ({
            let list = subscribers_among(all_triggers(seq![first, second], 2), pattern);
            &&& extended(None, list) == Some(list)
            &&& exists|i: int, j: int|
                0 <= i < j < list.len() && #[trigger] list[i] == (first.0@, first.1@[f].0@)
                    && #[trigger] list[j] == (second.0@, second.1@[g].0@)
        }),
{
    let apps = seq![first, second];
    let of_first = app_triggers(first.0@, first.1@, first.1@.len() as int);
    let of_second = app_triggers(second.0@, second.1@, second.1@.len() as int);
    assert(all_triggers(apps, 0) =~= Seq::empty());
    assert(all_triggers(apps, 1) =~= of_first) by {
        assert(all_triggers(apps, 1) == all_triggers(apps, 0) + of_first);
    }
    assert(all_triggers(apps, 2) == of_first + of_second);
    lemma_subscribers_concat(of_first, of_second, pattern);
    lemma_app_subscribes(first.0@, first.1@, first.1@.len() as int, f, e, pattern);
    lemma_app_subscribes(second.0@, second.1@, second.1@.len() as int, g, d, pattern);
    let head = subscribers_among(of_first, pattern);
    let tail = subscribers_among(of_second, pattern);
    let i = choose|i: int| 0 <= i < head.len() && head[i] == (first.0@, first.1@[f].0@);
    let k = choose|k: int| 0 <= k < tail.len() && tail[k] == (second.0@, second.1@[g].0@);
    let list = subscribers_among(all_triggers(apps, 2), pattern);
    let j = head.len() + k;
    assert(list == head + tail);
    assert(list[i] == (first.0@, first.1@[f].0@));
    assert(list[j] == (second.0@, second.1@[g].0@));
    assert(0 <= i < j < list.len());
    assert(extended(None, list) == Some(list));
}

} // verus!
