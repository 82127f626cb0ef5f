use vstd::prelude::*;
use crate::apierror::{str_view, APIError, APIErrorMeta, ErrorMeta, MetaView, WrappedView};
use crate::cause::{CausalError, CauseView};

verus! {

/// The identity of a classification: its system and its code.
pub type Key = (Seq<char>, Seq<char>);

/// What a registry holds: each registered identity with its classification.
pub type SpaceView = Map<Key, MetaView>;

/// The registry after `register`: `meta` is added under its identity if that
/// identity is free, and nothing changes if it is taken.
pub open spec fn registered(space: SpaceView, meta: MetaView) -> SpaceView {
    if space.contains_key(meta.key()) {
        space
    } else {
        space.insert(meta.key(), meta)
    }
}

/// The registry after `overwrite`: `meta` stands under its identity, whatever
/// stood there before.
pub open spec fn overwritten(space: SpaceView, meta: MetaView) -> SpaceView {
    space.insert(meta.key(), meta)
}

/// What a lookup of `(system, code)` finds.
pub open spec fn lookup(space: SpaceView, system: Seq<char>, code: Seq<char>) -> Option<MetaView> {
    if space.contains_key((system, code)) {
        Some(space[(system, code)])
    } else {
        None
    }
}

/// The test whether an identity belongs to `system`.
pub open spec fn in_system(system: Seq<char>) -> spec_fn(Key) -> bool {
    |k: Key| k.0 == system
}

/// The identities registered under `system`.
pub open spec fn keys_of_system(space: SpaceView, system: Seq<char>) -> Set<Key> {
    space.dom().filter(in_system(system))
}

/// The plain values of a list of classifications.
pub open spec fn metas_view(metas: Seq<ErrorMeta>) -> Seq<MetaView> {
    metas.map_values(|m: ErrorMeta| m@)
}

/// A registry after each classification of a list is registered in turn.
pub open spec fn registered_all(space: SpaceView, metas: Seq<MetaView>) -> SpaceView
    decreases metas.len(),
{
    if metas.len() == 0 {
        space
    } else {
        registered(registered_all(space, metas.drop_last()), metas.last())
    }
}

/// A registry after each classification of a list is written over it in
/// turn.
pub open spec fn overwritten_all(space: SpaceView, metas: Seq<MetaView>) -> SpaceView
    decreases metas.len(),
{
    if metas.len() == 0 {
        space
    } else {
        overwritten(overwritten_all(space, metas.drop_last()), metas.last())
    }
}

/// The classification that `adapt` attaches: the one that the registry holds
/// for the identity that the cause carries, and `default_meta` if the cause
/// carries none or the registry does not know it.
pub open spec fn adapted_meta(space: SpaceView, carried: Option<MetaView>, default_meta: MetaView) -> MetaView {
    match carried {
        Some(c) => match lookup(space, c.system, c.code) {
            Some(meta) => meta,
            None => default_meta,
        },
        None => default_meta,
    }
}

/// The classified error that `adapt` makes of a cause.
pub open spec fn adapted(
    space: SpaceView,
    cause: CauseView,
    default_meta: MetaView,
    caller: Option<Seq<char>>,
) -> WrappedView {
    WrappedView { meta: adapted_meta(space, cause.carried, default_meta), error: cause, caller }
}

/// The classified error that `force` makes of a cause.
pub open spec fn forced(cause: CauseView, meta: MetaView, caller: Option<Seq<char>>) -> WrappedView {
    WrappedView { meta, error: cause, caller }
}

/// The identities of a list of classifications, in order.
spec fn keys(errors: Seq<ErrorMeta>) -> Seq<Key> {
    errors.map_values(|m: ErrorMeta| m@.key())
}

/// The registry that a list of classifications with distinct identities
/// stands for.
spec fn space_of(errors: Seq<ErrorMeta>) -> SpaceView {
    Map::new(|k: Key| keys(errors).contains(k), |k: Key| errors[keys(errors).index_of(k)]@)
}

/// A registry of classifications, keyed by system and code.
pub struct Errorspace {
    errors: Vec<ErrorMeta>,
}

impl View for Errorspace {
    type V = SpaceView;

    closed spec fn view(&self) -> SpaceView {
        space_of(self.errors@)
    }
}

impl Errorspace {
    /// No identity is stored twice.
    #[verifier::type_invariant]
    closed spec fn inv(&self) -> bool {
        keys(self.errors@).no_duplicates()
    }

    /// An empty registry.
    pub fn new() -> (space: Errorspace)
        ensures
            space@ == Map::<Key, MetaView>::empty(),
    {
        let space = Errorspace { errors: Vec::new() };
        assert(space@ =~= Map::<Key, MetaView>::empty());
        space
    }

    /// The place of the classification with the given identity, if it is
    /// stored.
    fn position(&self, system: &str, code: &str) -> (r: Option<usize>)
        ensures
            match r {
                Some(i) => i < self.errors.len() && keys(self.errors@)[i as int] == (system@, code@),
                None => !keys(self.errors@).contains((system@, code@)),
            },
    {
        let mut i: usize = 0;
        while i < self.errors.len()
            invariant
                i <= self.errors.len(),
                forall|j: int| 0 <= j < i ==> keys(self.errors@)[j] != (system@, code@),
            decreases self.errors.len() - i,
        {
            if self.errors[i].has_key(system, code) {
                return Some(i);
            }
            i += 1;
        }
        None
    }

    /// Registers `meta` under its system and code if nothing is registered
    /// there yet; otherwise does nothing: the first registration wins.
    pub fn register_api_error_meta<M: APIErrorMeta>(&mut self, meta: &M)
        ensures
            final(self)@ == registered(old(self)@, meta.spec_meta()),
    {
        proof {
            use_type_invariant(&*self);
        }
        let found = self.position(meta.system(), meta.code());
        if found.is_none() {
            let meta = ErrorMeta::of(meta);
            proof {
                lemma_space_push(self.errors@, meta);
            }
            // The list is taken out while it changes, and put back after.
            // The list is taken out while it changes, and put back after.
            let mut errors: Vec<ErrorMeta> = Vec::new();
            core::mem::swap(&mut self.errors, &mut errors);
            errors.push(meta);
            core::mem::swap(&mut self.errors, &mut errors);
        }
    }

    /// Registers `meta` under its system and code, in place of whatever is
    /// registered there.
    pub fn overwrite_api_error_meta<M: APIErrorMeta>(&mut self, meta: &M)
        ensures
            final(self)@ == overwritten(old(self)@, meta.spec_meta()),
    {
        proof {
            use_type_invariant(&*self);
        }
        let found = self.position(meta.system(), meta.code());
        let meta = ErrorMeta::of(meta);
        proof {
            match found {
                Some(i) => lemma_space_update(self.errors@, i as int, meta),
                None => lemma_space_push(self.errors@, meta),
            }
        }
        // The list is taken out while it changes, and put back after.
        // The list is taken out while it changes, and put back after.
        let mut errors: Vec<ErrorMeta> = Vec::new();
        core::mem::swap(&mut self.errors, &mut errors);
        match found {
            Some(i) => errors.set(i, meta),
            None => errors.push(meta),
        }
        core::mem::swap(&mut self.errors, &mut errors);
    }

    /// Registers each classification of `metas` in turn, the first one
    /// first; identities that are taken stay as they are.
    pub fn register_all(&mut self, metas: &Vec<ErrorMeta>)
        ensures
            final(self)@ == registered_all(old(self)@, metas_view(metas@)),
    {
        let mut i: usize = 0;
        while i < metas.len()
            invariant
                i <= metas.len(),
                self@ == registered_all(old(self)@, metas_view(metas@.take(i as int))),
            decreases metas.len() - i,
        {
            proof {
                let next = metas_view(metas@.take(i + 1));
                assert(next.drop_last() =~= metas_view(metas@.take(i as int)));
                assert(next.last() == metas@[i as int]@);
            }
            self.register_api_error_meta(&metas[i]);
            i += 1;
        }
        proof {
            assert(metas@.take(i as int) =~= metas@);
        }
    }

    /// Writes each classification of `metas` over the registry in turn, the
    /// first one first.
    pub fn overwrite_all(&mut self, metas: &Vec<ErrorMeta>)
        ensures
            final(self)@ == overwritten_all(old(self)@, metas_view(metas@)),
    {
        let mut i: usize = 0;
        while i < metas.len()
            invariant
                i <= metas.len(),
                self@ == overwritten_all(old(self)@, metas_view(metas@.take(i as int))),
            decreases metas.len() - i,
        {
            proof {
                let next = metas_view(metas@.take(i + 1));
                assert(next.drop_last() =~= metas_view(metas@.take(i as int)));
                assert(next.last() == metas@[i as int]@);
            }
            self.overwrite_api_error_meta(&metas[i]);
            i += 1;
        }
        proof {
            assert(metas@.take(i as int) =~= metas@);
        }
    }

    /// The classification registered under `(system, code)`, or `None` if
    /// there is none.
    pub fn get_api_error_meta(&self, system: &str, code: &str) -> (r: Option<&ErrorMeta>)
        ensures
            match r {
                Some(meta) => lookup(self@, system@, code@) == Some(meta@),
                None => lookup(self@, system@, code@).is_none(),
            },
    {
        proof {
            use_type_invariant(self);
        }
        match self.position(system, code) {
            Some(i) => {
                proof {
                    lemma_space_index(self.errors@, i as int);
                }
                Some(&self.errors[i])
            },
            None => None,
        }
    }

    /// Classifies `err` in the vocabulary of this registry. If `err` already
    /// carries a classification and the registry knows its system and code,
    /// the registry's classification for them is attached; otherwise
    /// `default_meta` is. The cause is kept whole, and `caller` is recorded.
    /// `mapping_names` is accepted and has no effect.
    pub fn adapt<M: APIErrorMeta>(
        &self,
        err: CausalError,
        default_meta: &M,
        mapping_names: &[&str],
        caller: Option<&str>,
    ) -> (wrapped: APIError)
        ensures
            wrapped@ == adapted(self@, err@, default_meta.spec_meta(), str_view(caller)),
    {
        let found = match err.carried() {
            Some(carried) => self.get_api_error_meta(carried.system(), carried.code()),
            None => None,
        };
        let meta = match found {
            Some(meta) => meta.clone(),
            None => ErrorMeta::of(default_meta),
        };
        APIError::new(meta, err, caller)
    }

    /// Attaches `meta` to `err` whatever `err` carries already. The cause is
    /// kept whole, and `caller` is recorded. `mapping_names` is accepted and
    /// has no effect.
    pub fn force<M: APIErrorMeta>(
        &self,
        err: CausalError,
        meta: &M,
        mapping_names: &[&str],
        caller: Option<&str>,
    ) -> (wrapped: APIError)
        ensures
            wrapped@ == forced(err@, meta.spec_meta(), str_view(caller)),
    {
        APIError::new(ErrorMeta::of(meta), err, caller)
    }

    /// The number of codes registered under `system`; 0 if the system is
    /// unknown.
    pub fn len(&self, system: &str) -> (n: usize)
        ensures
            self@.dom().finite(),
            n == keys_of_system(self@, system@).len(),
    {
        proof {
            use_type_invariant(self);
        }
        let mut n: usize = 0;
        let mut i: usize = 0;
        while i < self.errors.len()
            invariant
                i <= self.errors.len(),
                n <= i,
                n == keys(self.errors@.take(i as int)).filter(in_system(system@)).len(),
            decreases self.errors.len() - i,
        {
            proof {
                let head = self.errors@.take(i as int);
                let meta = self.errors@[i as int];
                assert(self.errors@.take(i + 1) =~= head.push(meta));
                assert(keys(head.push(meta)) =~= keys(head).push(meta@.key()));
                keys(head).lemma_filter_len_push(in_system(system@), meta@.key());
            }
            if crate::apierror::str_eq(self.errors[i].system(), system) {
                n += 1;
            }
            i += 1;
        }
        proof {
            assert(self.errors@.take(i as int) =~= self.errors@);
            lemma_count(self.errors@, system@);
        }
        n
    }
}

impl Clone for Errorspace {
    /// An independent snapshot: it holds what the registry holds now, and
    /// later changes of either leave the other as it is.
    fn clone(&self) -> (space: Errorspace)
        ensures
            space@ == self@,
    {
        proof {
            use_type_invariant(self);
        }
        let mut errors: Vec<ErrorMeta> = Vec::new();
        let mut i: usize = 0;
        while i < self.errors.len()
            invariant
                i <= self.errors.len(),
                errors.len() == i,
                keys(errors@) == keys(self.errors@.take(i as int)),
                forall|j: int| 0 <= j < i ==> (#[trigger] errors@[j])@ == self.errors@[j]@,
            decreases self.errors.len() - i,
        {
            let meta = self.errors[i].clone();
            proof {
                assert(self.errors@.take(i + 1) =~= self.errors@.take(i as int).push(
                    self.errors@[i as int],
                ));
                assert(keys(errors@.push(meta)) =~= keys(errors@).push(meta@.key()));
                assert(keys(self.errors@.take(i as int).push(self.errors@[i as int])) =~= keys(
                    self.errors@.take(i as int),
                ).push(meta@.key()));
            }
            errors.push(meta);
            i += 1;
        }
        proof {
            assert(self.errors@.take(i as int) =~= self.errors@);
            lemma_space_same(errors@, self.errors@);
        }
        Errorspace { errors }
    }
}

/// Two lists with the same classifications in the same order stand for the
/// same registry.
proof fn lemma_space_same(a: Seq<ErrorMeta>, b: Seq<ErrorMeta>)
    requires
        a.len() == b.len(),
        forall|j: int| 0 <= j < a.len() ==> (#[trigger] a[j])@ == b[j]@,
    ensures
        keys(a) == keys(b),
        space_of(a) == space_of(b),
{
    assert(keys(a) =~= keys(b));
    assert(space_of(a) =~= space_of(b));
}

/// In a list with distinct identities, as many entries belong to a system as
/// the registry has identities under it.
proof fn lemma_count(errors: Seq<ErrorMeta>, system: Seq<char>)
    requires
        keys(errors).no_duplicates(),
    ensures
        space_of(errors).dom().finite(),
        keys(errors).filter(in_system(system)).len() == keys_of_system(space_of(errors), system).len(),
    decreases errors.len(),
{
    let p = in_system(system);
    if errors.len() == 0 {
        assert(space_of(errors).dom() =~= Set::<Key>::empty());
        assert(space_of(errors).dom().filter(p) =~= Set::<Key>::empty());
        assert(keys(errors) =~= Seq::<Key>::empty());
        keys(errors).lemma_filter_len(p);
    } else {
        let head = errors.drop_last();
        let meta = errors.last();
        assert(errors =~= head.push(meta));
        assert(keys(errors) =~= keys(head).push(meta@.key()));
        assert(keys(head) =~= keys(errors).drop_last());
        assert(!keys(head).contains(meta@.key())) by {
            if keys(head).contains(meta@.key()) {
                let j = keys(head).index_of(meta@.key());
                assert(keys(errors)[j] == keys(errors)[errors.len() - 1]);
            }
        }
        lemma_count(head, system);
        lemma_space_push(head, meta);
        keys(head).lemma_filter_len_push(p, meta@.key());
        let before = space_of(head).dom();
        if p(meta@.key()) {
            assert(space_of(errors).dom().filter(p) =~= before.filter(p).insert(meta@.key()));
        } else {
            assert(space_of(errors).dom().filter(p) =~= before.filter(p));
        }
    }
}

/// In a list with distinct identities, each classification is what its
/// identity stands for.
proof fn lemma_space_index(errors: Seq<ErrorMeta>, i: int)
    requires
        keys(errors).no_duplicates(),
        0 <= i < errors.len(),
    ensures
        space_of(errors).contains_key(keys(errors)[i]),
        space_of(errors)[keys(errors)[i]] == errors[i]@,
{
    let k = keys(errors)[i];
    assert(keys(errors).contains(k));
    let j = keys(errors).index_of(k);
    assert(j == i);
}

/// Appending a classification with a new identity inserts it.
proof fn lemma_space_push(errors: Seq<ErrorMeta>, meta: ErrorMeta)
    requires
        keys(errors).no_duplicates(),
        !keys(errors).contains(meta@.key()),
    ensures
        keys(errors.push(meta)).no_duplicates(),
        space_of(errors.push(meta)) == space_of(errors).insert(meta@.key(), meta@),
        !space_of(errors).contains_key(meta@.key()),
{
    let after = errors.push(meta);
    assert(keys(after) =~= keys(errors).push(meta@.key()));
    assert forall|k: Key| #[trigger] space_of(after).contains_key(k) implies space_of(
        errors,
    ).insert(meta@.key(), meta@).contains_key(k) && space_of(after)[k] == space_of(errors).insert(
        meta@.key(),
        meta@,
    )[k] by {
        let j = keys(after).index_of(k);
        if j < errors.len() {
            assert(keys(errors)[j] == k);
            lemma_space_index(errors, j);
        }
    }
    assert forall|k: Key| #[trigger]
        space_of(errors).insert(meta@.key(), meta@).contains_key(k) implies space_of(
        after,
    ).contains_key(k) by {
        if k == meta@.key() {
            assert(keys(after)[errors.len() as int] == k);
        } else {
            let j = keys(errors).index_of(k);
            assert(keys(after)[j] == k);
        }
    }
    assert(space_of(after) =~= space_of(errors).insert(meta@.key(), meta@));
}

/// Replacing a classification by one with the same identity replaces what
/// that identity stands for.
proof fn lemma_space_update(errors: Seq<ErrorMeta>, i: int, meta: ErrorMeta)
    requires
        keys(errors).no_duplicates(),
        0 <= i < errors.len(),
        keys(errors)[i] == meta@.key(),
    ensures
        keys(errors.update(i, meta)) == keys(errors),
        space_of(errors.update(i, meta)) == space_of(errors).insert(meta@.key(), meta@),
{
    let after = errors.update(i, meta);
    assert(keys(after) =~= keys(errors));
    assert forall|k: Key| #[trigger] space_of(after).contains_key(k) implies space_of(after)[k]
        == space_of(errors).insert(meta@.key(), meta@)[k] by {
        let j = keys(after).index_of(k);
        if j != i {
            lemma_space_index(errors, j);
        }
    }
    assert(keys(errors).contains(meta@.key()));
    assert(space_of(after) =~= space_of(errors).insert(meta@.key(), meta@));
}

/// Registering on a free identity stores the classification: a lookup of its
/// system and code then finds it.
pub proof fn lemma_register_then_get(space: SpaceView, meta: MetaView)
    requires
        !space.contains_key(meta.key()),
    ensures
        lookup(registered(space, meta), meta.system, meta.code) == Some(meta),
{
}

/// The first registration wins: registering on a taken identity changes
/// nothing, so a second registration for the same system and code leaves the
/// first one stored.
pub proof fn lemma_register_first_wins(space: SpaceView, first: MetaView, second: MetaView)
    requires
        first.key() == second.key(),
    ensures
        space.contains_key(second.key()) ==> registered(space, second) == space,
        registered(registered(space, first), second) == registered(space, first),
        lookup(registered(registered(space, first), second), first.system, first.code) == lookup(
            registered(space, first),
            first.system,
            first.code,
        ),
{
}

/// Overwriting always replaces: a lookup of the identity then finds the new
/// classification, whatever was stored before.
pub proof fn lemma_overwrite_replaces(space: SpaceView, meta: MetaView)
    ensures
        lookup(overwritten(space, meta), meta.system, meta.code) == Some(meta),
{
}

/// A cause that carries no classification is classified with the default,
/// whatever the registry holds, and its chain is kept: every message of the
/// cause is still in the chain of the classified error, in the same order,
/// below the one new link.
pub proof fn lemma_adapt_unclassified(
    space: SpaceView,
    cause: CauseView,
    default_meta: MetaView,
    caller: Option<Seq<char>>,
)
    requires
        cause.carried.is_none(),
    ensures
        adapted(space, cause, default_meta, caller).meta == default_meta,
        adapted(space, cause, default_meta, caller).error == cause,
        adapted(space, cause, default_meta, caller).as_cause().carried == Some(default_meta),
        adapted(space, cause, default_meta, caller).as_cause().texts.skip(1) == cause.texts,
        forall|i: int|
            0 <= i < cause.texts.len() ==> adapted(
                space,
                cause,
                default_meta,
                caller,
            ).as_cause().texts[i + 1] == cause.texts[i],
{
    let after = adapted(space, cause, default_meta, caller).as_cause();
    assert(after.texts.skip(1) =~= cause.texts);
}

/// A cause that carries a classification which the registry knows is
/// classified as the registry says; one that the registry does not know is
/// classified with the default.
pub proof fn lemma_adapt_classified(
    space: SpaceView,
    cause: CauseView,
    default_meta: MetaView,
    caller: Option<Seq<char>>,
)
    requires
        cause.carried.is_some(),
    ensures
        space.contains_key(cause.carried.unwrap().key()) ==> adapted(
            space,
            cause,
            default_meta,
            caller,
        ).meta == space[cause.carried.unwrap().key()],
        !space.contains_key(cause.carried.unwrap().key()) ==> adapted(
            space,
            cause,
            default_meta,
            caller,
        ).meta == default_meta,
{
}

/// Forcing a classification on an adapted error gives an error classified
/// as forced, whatever was attached in between, and the root cause stays
/// the last link of the chain.
pub proof fn lemma_force_after_adapt(
    space: SpaceView,
    cause: CauseView,
    adapt_meta: MetaView,
    adapt_caller: Option<Seq<char>>,
    force_meta: MetaView,
    force_caller: Option<Seq<char>>,
)
    requires
        cause.texts.len() >= 1,
    ensures
        ({
            let inner = adapted(space, cause, adapt_meta, adapt_caller).as_cause();
            let outer = forced(inner, force_meta, force_caller);
            &&& outer.meta == force_meta
            &&& outer.as_cause().carried == Some(force_meta)
            &&& outer.as_cause().texts.last() == cause.texts.last()
            &&& outer.as_cause().texts.skip(2) == cause.texts
        }),
{
    let inner = adapted(space, cause, adapt_meta, adapt_caller).as_cause();
    let outer = forced(inner, force_meta, force_caller);
    assert(outer.as_cause().texts.skip(2) =~= cause.texts);
}

/// After a list is registered, each of its identities is taken.
proof fn lemma_registered_all_taken(space: SpaceView, metas: Seq<MetaView>, i: int)
    requires
        0 <= i < metas.len(),
    ensures
        registered_all(space, metas).contains_key(metas[i].key()),
    decreases metas.len(),
{
    if i < metas.len() - 1 {
        lemma_registered_all_taken(space, metas.drop_last(), i);
    }
}

/// Registering the same list a second time changes nothing.
pub proof fn lemma_registered_all_twice(space: SpaceView, metas: Seq<MetaView>)
    ensures
        registered_all(registered_all(space, metas), metas) == registered_all(space, metas),
{
    lemma_registered_all_noop(registered_all(space, metas), metas, space, metas);
}

/// Registering a list whose identities are all taken changes nothing.
proof fn lemma_registered_all_noop(
    space: SpaceView,
    metas: Seq<MetaView>,
    base: SpaceView,
    all: Seq<MetaView>,
)
    requires
        space == registered_all(base, all),
        forall|i: int| 0 <= i < metas.len() ==> exists|j: int| 0 <= j < all.len() && all[j].key() == (#[trigger] metas[i]).key(),
    ensures
        registered_all(space, metas) == space,
    decreases metas.len(),
{
    if metas.len() > 0 {
        let head = metas.drop_last();
        assert forall|i: int| 0 <= i < head.len() implies exists|j: int|
            0 <= j < all.len() && all[j].key() == (#[trigger] head[i]).key() by {
            assert(head[i] == metas[i]);
        }
        lemma_registered_all_noop(space, head, base, all);
        let last = metas[metas.len() - 1];
        let j = choose|j: int| 0 <= j < all.len() && all[j].key() == last.key();
        lemma_registered_all_taken(base, all, j);
    }
}

/// Registering and overwriting touch one identity only: every other lookup
/// finds what it found before.
pub proof fn lemma_other_keys_kept(space: SpaceView, meta: MetaView, system: Seq<char>, code: Seq<char>)
    requires
        (system, code) != meta.key(),
    ensures
        lookup(registered(space, meta), system, code) == lookup(space, system, code),
        lookup(overwritten(space, meta), system, code) == lookup(space, system, code),
{
}

} // verus!
