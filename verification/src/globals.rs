use vstd::prelude::*;
use vstd::string::*;
use crate::apierror::{str_eq, str_view, APIErrorMeta, APIErrorMetas, ErrorMeta, MetaView};
use crate::builtin::{lemma_builtin_keys_distinct, Builtin};
use crate::cause::CausalError;
use crate::errorspace::{
    adapted, forced, lemma_registered_all_twice, lookup, metas_view, overwritten_all, registered_all,
    Errorspace, Key, SpaceView,
};

verus! {

/// The name of the default space.
pub const GLOBAL_ERRORSPACE_NAME: &'static str = "";

/// What a table of spaces holds: each name with its registry.
pub type TableView = Map<Seq<char>, SpaceView>;

/// Why a lookup in a table of spaces found nothing.
#[derive(Clone, Copy, Debug, PartialEq, Eq, Structural)]
pub enum RegistryError {
    /// The space holds no classification for the system and code.
    NotFound,
    /// The table holds no space of that name.
    SpaceNotFound,
}

/// The table after a space is entered under `name`: the space is added if
/// the name is free, and nothing changes if it is taken.
pub open spec fn with_space(table: TableView, name: Seq<char>, space: SpaceView) -> TableView {
    if table.contains_key(name) {
        table
    } else {
        table.insert(name, space)
    }
}

/// The table after the space `from` is copied to the name `to`; the table
/// itself where there is no space `from`.
pub open spec fn with_clone(table: TableView, from: Seq<char>, to: Seq<char>) -> TableView {
    if table.contains_key(from) {
        with_space(table, to, table[from])
    } else {
        table
    }
}

/// The table after the default space is made, if it was missing, and the
/// builtin classifications are registered in it.
pub open spec fn seeded_table(table: TableView) -> TableView {
    let name = GLOBAL_ERRORSPACE_NAME@;
    let made = with_space(table, name, Map::<Key, MetaView>::empty());
    made.insert(name, registered_all(made[name], <Builtin as APIErrorMetas>::spec_metas()))
}

/// What a lookup of `(system, code)` in the space `name` gives.
pub open spec fn lookup_in(table: TableView, name: Seq<char>, system: Seq<char>, code: Seq<char>) -> Result<
    MetaView,
    RegistryError,
> {
    if !table.contains_key(name) {
        Err(RegistryError::SpaceNotFound)
    } else {
        match lookup(table[name], system, code) {
            Some(meta) => Ok(meta),
            None => Err(RegistryError::NotFound),
        }
    }
}

/// The registry that `adapt` consults for the space `name`: the space of
/// that name, and a registry that knows nothing where there is none.
pub open spec fn space_or_empty(table: TableView, name: Seq<char>) -> SpaceView {
    if table.contains_key(name) {
        table[name]
    } else {
        Map::<Key, MetaView>::empty()
    }
}

/// A registry with the name it has in a table.
struct NamedSpace {
    name: String,
    space: Errorspace,
}

/// The names of a list of spaces, in order.
spec fn names(spaces: Seq<NamedSpace>) -> Seq<Seq<char>> {
    spaces.map_values(|s: NamedSpace| s.name@)
}

/// The table that a list of spaces with distinct names stands for.
spec fn table_of(spaces: Seq<NamedSpace>) -> TableView {
    Map::new(
        |n: Seq<char>| names(spaces).contains(n),
        |n: Seq<char>| spaces[names(spaces).index_of(n)].space@,
    )
}

/// A table of named registries. The space with the empty name is the
/// default space; `init_once` seeds it with the builtin classifications.
pub struct Errorspaces {
    spaces: Vec<NamedSpace>,
    seeded: bool,
}

impl View for Errorspaces {
    type V = TableView;

    closed spec fn view(&self) -> TableView {
        table_of(self.spaces@)
    }
}

impl Errorspaces {
    /// No name is stored twice.
    #[verifier::type_invariant]
    closed spec fn inv(&self) -> bool {
        names(self.spaces@).no_duplicates()
    }

    /// Whether the default space has been seeded by `init_once`.
    pub closed spec fn seeded(&self) -> bool {
        self.seeded
    }

    /// A table without spaces, not seeded.
    pub fn new() -> (table: Errorspaces)
        ensures
            table@ == Map::<Seq<char>, SpaceView>::empty(),
            !table.seeded(),
    {
        let table = Errorspaces { spaces: Vec::new(), seeded: false };
        assert(table@ =~= Map::<Seq<char>, SpaceView>::empty());
        table
    }

    /// Whether `init_once` has seeded the default space.
    pub fn is_seeded(&self) -> (b: bool)
        ensures
            b == self.seeded(),
    {
        self.seeded
    }

    /// The place of the space with the given name, if the table has one.
    fn position(&self, name: &str) -> (r: Option<usize>)
        ensures
            match r {
                Some(i) => i < self.spaces.len() && names(self.spaces@)[i as int] == name@,
                None => !names(self.spaces@).contains(name@),
            },
    {
        let mut i: usize = 0;
        while i < self.spaces.len()
            invariant
                i <= self.spaces.len(),
                forall|j: int| 0 <= j < i ==> names(self.spaces@)[j] != name@,
            decreases self.spaces.len() - i,
        {
            if str_eq(self.spaces[i].name.as_str(), name) {
                return Some(i);
            }
            i += 1;
        }
        None
    }

    /// The space of the given name, if the table has one.
    pub fn space(&self, name: &str) -> (r: Option<&Errorspace>)
        ensures
            match r {
                Some(space) => self@.contains_key(name@) && self@[name@] == space@,
                None => !self@.contains_key(name@),
            },
    {
        proof {
            use_type_invariant(self);
        }
        match self.position(name) {
            Some(i) => {
                proof {
                    lemma_table_index(self.spaces@, i as int);
                }
                Some(&self.spaces[i].space)
            },
            None => None,
        }
    }

    /// Enters `space` under `name` if the name is free.
    fn enter(&mut self, name: &str, space: Errorspace)
        ensures
            final(self)@ == with_space(old(self)@, name@, space@),
            final(self).seeded() == old(self).seeded(),
    {
        proof {
            use_type_invariant(&*self);
        }
        if self.position(name).is_none() {
            let entry = NamedSpace { name: String::from_str(name), space };
            proof {
                lemma_table_push(self.spaces@, entry);
            }
            // The list is taken out while it changes, and put back after.
            // The list is taken out while it changes, and put back after.
            let mut spaces: Vec<NamedSpace> = Vec::new();
            core::mem::swap(&mut self.spaces, &mut spaces);
            spaces.push(entry);
            core::mem::swap(&mut self.spaces, &mut spaces);
        }
    }

    /// Registers every classification of `metas` in the space at place `i`,
    /// or writes every one over it.
    fn apply(&mut self, i: usize, metas: &Vec<ErrorMeta>, overwrite: bool)
        requires
            i < old(self).spaces.len(),
        ensures
            final(self)@ == old(self)@.insert(
                names(old(self).spaces@)[i as int],
                if overwrite {
                    overwritten_all(old(self)@[names(old(self).spaces@)[i as int]], metas_view(metas@))
                } else {
                    registered_all(old(self)@[names(old(self).spaces@)[i as int]], metas_view(metas@))
                },
            ),
            final(self).seeded() == old(self).seeded(),
    {
        proof {
            use_type_invariant(&*self);
            lemma_table_index(self.spaces@, i as int);
        }
        // The list is taken out while it changes, and put back after.
        // The list is taken out while it changes, and put back after.
        let mut spaces: Vec<NamedSpace> = Vec::new();
        core::mem::swap(&mut self.spaces, &mut spaces);
        let mut entry = spaces.remove(i);
        if overwrite {
            entry.space.overwrite_all(metas);
        } else {
            entry.space.register_all(metas);
        }
        proof {
            lemma_table_update(old(self).spaces@, i as int, entry);
            assert(spaces@.insert(i as int, entry) =~= old(self).spaces@.update(i as int, entry));
        }
        spaces.insert(i, entry);
        core::mem::swap(&mut self.spaces, &mut spaces);
    }
}

/// In a list with distinct names, each space is what its name stands for.
proof fn lemma_table_index(spaces: Seq<NamedSpace>, i: int)
    requires
        names(spaces).no_duplicates(),
        0 <= i < spaces.len(),
    ensures
        table_of(spaces).contains_key(names(spaces)[i]),
        table_of(spaces)[names(spaces)[i]] == spaces[i].space@,
{
    let n = names(spaces)[i];
    assert(names(spaces).contains(n));
    assert(names(spaces).index_of(n) == i);
}

/// Appending a space with a new name inserts it.
proof fn lemma_table_push(spaces: Seq<NamedSpace>, entry: NamedSpace)
    requires
        names(spaces).no_duplicates(),
        !names(spaces).contains(entry.name@),
    ensures
        names(spaces.push(entry)).no_duplicates(),
        table_of(spaces.push(entry)) == table_of(spaces).insert(entry.name@, entry.space@),
        !table_of(spaces).contains_key(entry.name@),
{
    let after = spaces.push(entry);
    let want = table_of(spaces).insert(entry.name@, entry.space@);
    assert(names(after) =~= names(spaces).push(entry.name@));
    assert forall|n: Seq<char>| #[trigger] table_of(after).contains_key(n) implies want.contains_key(
        n,
    ) && table_of(after)[n] == want[n] by {
        let j = names(after).index_of(n);
        if j < spaces.len() {
            assert(names(spaces)[j] == n);
            lemma_table_index(spaces, j);
        }
    }
    assert forall|n: Seq<char>| #[trigger] want.contains_key(n) implies table_of(
        after,
    ).contains_key(n) by {
        if n == entry.name@ {
            assert(names(after)[spaces.len() as int] == n);
        } else {
            let j = names(spaces).index_of(n);
            assert(names(after)[j] == n);
        }
    }
    assert(table_of(after) =~= want);
}

/// Replacing a space by one of the same name replaces what the name stands
/// for.
proof fn lemma_table_update(spaces: Seq<NamedSpace>, i: int, entry: NamedSpace)
    requires
        names(spaces).no_duplicates(),
        0 <= i < spaces.len(),
        names(spaces)[i] == entry.name@,
    ensures
        names(spaces.update(i, entry)) == names(spaces),
        table_of(spaces.update(i, entry)) == table_of(spaces).insert(entry.name@, entry.space@),
{
    let after = spaces.update(i, entry);
    let want = table_of(spaces).insert(entry.name@, entry.space@);
    assert(names(after) =~= names(spaces));
    assert forall|n: Seq<char>| #[trigger] table_of(after).contains_key(n) implies table_of(
        after,
    )[n] == want[n] by {
        let j = names(after).index_of(n);
        if j != i {
            lemma_table_index(spaces, j);
        }
    }
    assert(names(spaces).contains(entry.name@));
    assert(table_of(after) =~= want);
}

/// Makes an empty space under `name`, unless the table has a space of that
/// name already.
pub fn new_errorspace(spaces: &mut Errorspaces, name: &str)
    ensures
        final(spaces)@ == with_space(old(spaces)@, name@, Map::<Key, MetaView>::empty()),
        final(spaces).seeded() == old(spaces).seeded(),
{
    spaces.enter(name, Errorspace::new());
}

/// Enters `space` under `name`, unless the table has a space of that name
/// already.
pub fn register_errorspace(spaces: &mut Errorspaces, name: &str, space: Errorspace)
    ensures
        final(spaces)@ == with_space(old(spaces)@, name@, space@),
        final(spaces).seeded() == old(spaces).seeded(),
{
    spaces.enter(name, space);
}

/// Copies the space `from` to the name `to`, unless the table has a space
/// `to` already. Fails with `SpaceNotFound`, and changes nothing, exactly if
/// the table has no space `from`.
pub fn clone_errorspace(spaces: &mut Errorspaces, from: &str, to: &str) -> (r: Result<
    (),
    RegistryError,
>)
    ensures
        r.is_ok() == old(spaces)@.contains_key(from@),
        r is Err ==> r == Err::<(), RegistryError>(RegistryError::SpaceNotFound),
        final(spaces)@ == with_clone(old(spaces)@, from@, to@),
        final(spaces).seeded() == old(spaces).seeded(),
{
    let snapshot = match spaces.space(from) {
        None => {
            return Err(RegistryError::SpaceNotFound);
        },
        Some(space) => space.clone(),
    };
    spaces.enter(to, snapshot);
    Ok(())
}

/// Registers or overwrites every classification of `metas` in the space
/// `name`. Fails with `SpaceNotFound`, and changes nothing, exactly if the
/// table has no space of that name.
fn apply_all(spaces: &mut Errorspaces, name: &str, metas: &Vec<ErrorMeta>, overwrite: bool) -> (r:
    Result<(), RegistryError>)
    ensures
        r.is_ok() == old(spaces)@.contains_key(name@),
        r is Err ==> r == Err::<(), RegistryError>(RegistryError::SpaceNotFound),
        r is Err ==> final(spaces)@ == old(spaces)@,
        r is Ok && overwrite ==> final(spaces)@ == old(spaces)@.insert(
            name@,
            overwritten_all(old(spaces)@[name@], metas_view(metas@)),
        ),
        r is Ok && !overwrite ==> final(spaces)@ == old(spaces)@.insert(
            name@,
            registered_all(old(spaces)@[name@], metas_view(metas@)),
        ),
        final(spaces).seeded() == old(spaces).seeded(),
{
    proof {
        use_type_invariant(&*spaces);
    }
    match spaces.position(name) {
        None => {
            assert(!spaces@.contains_key(name@));
            Err(RegistryError::SpaceNotFound)
        },
        Some(i) => {
            proof {
                lemma_table_index(spaces.spaces@, i as int);
            }
            spaces.apply(i, metas, overwrite);
            Ok(())
        },
    }
}

/// The table after every classification of `metas` is registered in the
/// space `name`; the table itself where there is no such space.
pub open spec fn with_registered(table: TableView, name: Seq<char>, metas: Seq<MetaView>) -> TableView {
    if table.contains_key(name) {
        table.insert(name, registered_all(table[name], metas))
    } else {
        table
    }
}

/// The table after every classification of `metas` is written over the
/// space `name`; the table itself where there is no such space.
pub open spec fn with_overwritten(table: TableView, name: Seq<char>, metas: Seq<MetaView>) -> TableView {
    if table.contains_key(name) {
        table.insert(name, overwritten_all(table[name], metas))
    } else {
        table
    }
}

/// Registers every classification of the set `T` in the space `name`, in
/// declaration order; identities that are taken stay as they are. Fails with
/// `SpaceNotFound`, and changes nothing, exactly if the table has no space of
/// that name.
pub fn register_api_error_metas_errorspace<T: APIErrorMetas>(spaces: &mut Errorspaces, name: &str) -> (r:
    Result<(), RegistryError>)
    ensures
        r.is_ok() == old(spaces)@.contains_key(name@),
        r is Err ==> r == Err::<(), RegistryError>(RegistryError::SpaceNotFound),
        final(spaces)@ == with_registered(old(spaces)@, name@, T::spec_metas()),
        final(spaces).seeded() == old(spaces).seeded(),
{
    let metas = T::api_error_metas();
    assert(metas_view(metas@) =~= T::spec_metas());
    apply_all(spaces, name, &metas, false)
}

/// Registers every classification of the set `T` in the default space.
pub fn register_api_error_metas<T: APIErrorMetas>(spaces: &mut Errorspaces) -> (r: Result<
    (),
    RegistryError,
>)
    ensures
        r.is_ok() == old(spaces)@.contains_key(GLOBAL_ERRORSPACE_NAME@),
        r is Err ==> r == Err::<(), RegistryError>(RegistryError::SpaceNotFound),
        final(spaces)@ == with_registered(old(spaces)@, GLOBAL_ERRORSPACE_NAME@, T::spec_metas()),
        final(spaces).seeded() == old(spaces).seeded(),
{
    register_api_error_metas_errorspace::<T>(spaces, GLOBAL_ERRORSPACE_NAME)
}

/// Writes every classification of the set `T` over the space `name`, in
/// declaration order: used to bind other transport statuses. Fails with
/// `SpaceNotFound`, and changes nothing, exactly if the table has no space of
/// that name.
pub fn overwrite_api_error_metas_errorspace<T: APIErrorMetas>(spaces: &mut Errorspaces, name: &str) -> (r:
    Result<(), RegistryError>)
    ensures
        r.is_ok() == old(spaces)@.contains_key(name@),
        r is Err ==> r == Err::<(), RegistryError>(RegistryError::SpaceNotFound),
        final(spaces)@ == with_overwritten(old(spaces)@, name@, T::spec_metas()),
        final(spaces).seeded() == old(spaces).seeded(),
{
    let metas = T::api_error_metas();
    assert(metas_view(metas@) =~= T::spec_metas());
    apply_all(spaces, name, &metas, true)
}

/// Writes every classification of the set `T` over the default space.
pub fn overwrite_api_error_metas<T: APIErrorMetas>(spaces: &mut Errorspaces) -> (r: Result<
    (),
    RegistryError,
>)
    ensures
        r.is_ok() == old(spaces)@.contains_key(GLOBAL_ERRORSPACE_NAME@),
        r is Err ==> r == Err::<(), RegistryError>(RegistryError::SpaceNotFound),
        final(spaces)@ == with_overwritten(old(spaces)@, GLOBAL_ERRORSPACE_NAME@, T::spec_metas()),
        final(spaces).seeded() == old(spaces).seeded(),
{
    overwrite_api_error_metas_errorspace::<T>(spaces, GLOBAL_ERRORSPACE_NAME)
}

/// The classification registered under `(system, code)` in the space
/// `name`. Fails with `SpaceNotFound` if the table has no such space, and
/// with `NotFound` if the space has no such classification.
pub fn get_api_error_meta_errorspace<'a>(
    spaces: &'a Errorspaces,
    name: &str,
    system: &str,
    code: &str,
) -> (r: Result<&'a ErrorMeta, RegistryError>)
    ensures
        match r {
            Ok(meta) => lookup_in(spaces@, name@, system@, code@) == Ok::<MetaView, RegistryError>(
                meta@,
            ),
            Err(e) => lookup_in(spaces@, name@, system@, code@) == Err::<MetaView, RegistryError>(e),
        },
{
    match spaces.space(name) {
        None => Err(RegistryError::SpaceNotFound),
        Some(space) => match space.get_api_error_meta(system, code) {
            Some(meta) => Ok(meta),
            None => Err(RegistryError::NotFound),
        },
    }
}

/// The classification registered under `(system, code)` in the default
/// space.
pub fn get_api_error_meta<'a>(spaces: &'a Errorspaces, system: &str, code: &str) -> (r: Result<
    &'a ErrorMeta,
    RegistryError,
>)
    ensures
        match r {
            Ok(meta) => lookup_in(spaces@, GLOBAL_ERRORSPACE_NAME@, system@, code@) == Ok::<
                MetaView,
                RegistryError,
            >(meta@),
            Err(e) => lookup_in(spaces@, GLOBAL_ERRORSPACE_NAME@, system@, code@) == Err::<
                MetaView,
                RegistryError,
            >(e),
        },
{
    get_api_error_meta_errorspace(spaces, GLOBAL_ERRORSPACE_NAME, system, code)
}

/// Classifies `err` in the vocabulary of the space `name` and hands it on as
/// a cause. If `err` carries a classification whose system and code the
/// space knows, the space's classification for them is attached; in every
/// other case, also where the table has no space of that name,
/// `default_meta` is. The chain of `err` is kept whole under one new link.
pub fn adapt_errorspace<M: APIErrorMeta>(
    spaces: &Errorspaces,
    name: &str,
    err: CausalError,
    default_meta: &M,
    mapping_names: &[&str],
    caller: Option<&str>,
) -> (cause: CausalError)
    ensures
        cause@ == adapted(
            space_or_empty(spaces@, name@),
            err@,
            default_meta.spec_meta(),
            str_view(caller),
        ).as_cause(),
{
    let wrapped = match spaces.space(name) {
        Some(space) => space.adapt(err, default_meta, mapping_names, caller),
        None => Errorspace::new().adapt(err, default_meta, mapping_names, caller),
    };
    wrapped.into_error()
}

/// Classifies `err` in the vocabulary of the default space and hands it on
/// as a cause.
pub fn adapt<M: APIErrorMeta>(
    spaces: &Errorspaces,
    err: CausalError,
    default_meta: &M,
    mapping_names: &[&str],
    caller: Option<&str>,
) -> (cause: CausalError)
    ensures
        cause@ == adapted(
            space_or_empty(spaces@, GLOBAL_ERRORSPACE_NAME@),
            err@,
            default_meta.spec_meta(),
            str_view(caller),
        ).as_cause(),
{
    adapt_errorspace(spaces, GLOBAL_ERRORSPACE_NAME, err, default_meta, mapping_names, caller)
}

/// Attaches `meta` to `err`, whatever `err` carries and whatever the space
/// `name` holds, and hands it on as a cause. The chain of `err` is kept
/// whole under one new link.
pub fn force_errorspace<M: APIErrorMeta>(
    spaces: &Errorspaces,
    name: &str,
    err: CausalError,
    meta: &M,
    mapping_names: &[&str],
    caller: Option<&str>,
) -> (cause: CausalError)
    ensures
        cause@ == forced(err@, meta.spec_meta(), str_view(caller)).as_cause(),
{
    let wrapped = match spaces.space(name) {
        Some(space) => space.force(err, meta, mapping_names, caller),
        None => Errorspace::new().force(err, meta, mapping_names, caller),
    };
    wrapped.into_error()
}

/// Attaches `meta` to `err`, whatever `err` carries, and hands it on as a
/// cause.
pub fn force<M: APIErrorMeta>(
    spaces: &Errorspaces,
    err: CausalError,
    meta: &M,
    mapping_names: &[&str],
    caller: Option<&str>,
) -> (cause: CausalError)
    ensures
        cause@ == forced(err@, meta.spec_meta(), str_view(caller)).as_cause(),
{
    force_errorspace(spaces, GLOBAL_ERRORSPACE_NAME, err, meta, mapping_names, caller)
}

/// Makes the default space, if it is missing, and registers the builtin
/// classifications in it.
pub fn init(spaces: &mut Errorspaces)
    ensures
        final(spaces)@ == seeded_table(old(spaces)@),
        final(spaces).seeded() == old(spaces).seeded(),
{
    new_errorspace(spaces, GLOBAL_ERRORSPACE_NAME);
    let r = register_api_error_metas::<Builtin>(spaces);
}

/// Seeds the default space on the first call, and does nothing on every
/// later one.
pub fn init_once(spaces: &mut Errorspaces)
    ensures
        final(spaces).seeded(),
        final(spaces)@ == if old(spaces).seeded() {
            old(spaces)@
        } else {
            seeded_table(old(spaces)@)
        },
{
    if !spaces.seeded {
        init(spaces);
        proof {
            use_type_invariant(&*spaces);
        }
        spaces.seeded = true;
    }
}

/// A copy is a registry of its own: after the space `from` is copied to a
/// free name `to`, registering or overwriting in the copy leaves every
/// lookup in `from` as it was.
pub proof fn lemma_clone_isolation(
    table: TableView,
    from: Seq<char>,
    to: Seq<char>,
    metas: Seq<MetaView>,
    system: Seq<char>,
    code: Seq<char>,
)
    requires
        table.contains_key(from),
        from != to,
    ensures
        with_clone(table, from, to).contains_key(to),
        !table.contains_key(to) ==> with_clone(table, from, to)[to] == table[from],
        lookup_in(with_registered(with_clone(table, from, to), to, metas), from, system, code)
            == lookup_in(table, from, system, code),
        lookup_in(with_overwritten(with_clone(table, from, to), to, metas), from, system, code)
            == lookup_in(table, from, system, code),
{
}

/// Seeding a table that has no default space yet makes one that holds each
/// builtin classification under its system and code.
pub proof fn lemma_seeded_has_builtins(table: TableView, builtin: Builtin)
    requires
        !table.contains_key(GLOBAL_ERRORSPACE_NAME@),
    ensures
        lookup_in(
            seeded_table(table),
            GLOBAL_ERRORSPACE_NAME@,
            builtin.spec_meta().system,
            builtin.spec_meta().code,
        ) == Ok::<MetaView, RegistryError>(builtin.spec_meta()),
{
    let metas = <Builtin as APIErrorMetas>::spec_metas();
    reveal_with_fuel(registered_all, 4);
    lemma_builtin_keys_distinct(Builtin::Successful, Builtin::Unknown);
    lemma_builtin_keys_distinct(Builtin::Successful, Builtin::Internal);
    lemma_builtin_keys_distinct(Builtin::Unknown, Builtin::Internal);
    assert(metas.drop_last().drop_last().drop_last() =~= Seq::empty());
    assert(metas.drop_last().drop_last() =~= seq![Builtin::Successful.spec_meta()]);
    assert(metas.drop_last() =~= seq![
        Builtin::Successful.spec_meta(),
        Builtin::Unknown.spec_meta(),
    ]);
}

/// Seeding twice is seeding once: the default space exists after the first
/// time, and every builtin identity is taken.
pub proof fn lemma_seed_idempotent(table: TableView)
    ensures
        seeded_table(table).contains_key(GLOBAL_ERRORSPACE_NAME@),
        seeded_table(seeded_table(table)) == seeded_table(table),
{
    let name = GLOBAL_ERRORSPACE_NAME@;
    let metas = <Builtin as APIErrorMetas>::spec_metas();
    let once = seeded_table(table);
    let space = once[name];
    lemma_registered_all_twice(with_space(table, name, Map::<Key, MetaView>::empty())[name], metas);
    assert(once.insert(name, registered_all(space, metas)) =~= once);
}

} // verus!
