//! The keys that the library knows by their code, and the bindings of keys
//! to commands.

use vstd::prelude::*;

verus! {

pub const BACKSPACE: i32 = 0x7F;

pub const TAB: i32 = 0x9;

pub const ENTER: i32 = 0xA;

pub const ESCAPE: i32 = 0x1B;

/// What a key is bound to: a command, or a further set of bindings in
/// which the next key is looked up.
#[derive(Debug)]
pub enum CommandKeybind<C> {
    SimpleKeybind(C),
    CompositeKeybind(Vec<(i32, CommandKeybind<C>)>),
}

/// What a key led to.
#[derive(Debug)]
pub enum KeyStep<'a, C> {
    /// The key is bound to this command.
    Run(&'a C),
    /// The key opens these bindings: the next key is looked up in them.
    More(&'a Vec<(i32, CommandKeybind<C>)>),
    /// The key is bound to nothing, or the sequence was given up.
    Nothing,
}

/// Whether `i` is the first place in `keymap` that binds the key `ch`.
pub open spec fn spec_bound_at<C>(keymap: Seq<(i32, CommandKeybind<C>)>, ch: i32, i: int) -> bool {
    &&& 0 <= i < keymap.len()
    &&& keymap[i].0 == ch
    &&& forall|j: int| 0 <= j < i ==> keymap[j].0 != ch
}

/// Whether `keymap` binds the key `ch`.
pub open spec fn spec_binds<C>(keymap: Seq<(i32, CommandKeybind<C>)>, ch: i32) -> bool {
    exists|i: int| 0 <= i < keymap.len() && keymap[i].0 == ch
}

/// The first place in `keymap` that binds the key `ch`.
pub open spec fn spec_binding_index<C>(keymap: Seq<(i32, CommandKeybind<C>)>, ch: i32) -> Option<
    int,
> {
    if exists|i: int| spec_bound_at(keymap, ch, i) {
        Some(choose|i: int| spec_bound_at(keymap, ch, i))
    } else {
        None
    }
}

/// The first place that binds a key is the one that `spec_binding_index`
/// gives.
pub proof fn lemma_binding_index<C>(keymap: Seq<(i32, CommandKeybind<C>)>, ch: i32, i: int)
    requires
        spec_bound_at(keymap, ch, i),
    ensures
        spec_binding_index(keymap, ch) == Some(i),
{
    let c = choose|c: int| spec_bound_at(keymap, ch, c);
    assert(spec_bound_at(keymap, ch, c));
    if c < i {
        assert(keymap[c].0 != ch);
    } else if i < c {
        assert(keymap[i].0 != ch);
    }
}

/// What a binding says, as a step.
pub open spec fn spec_step_of<C>(binding: CommandKeybind<C>, step: KeyStep<C>) -> bool {
    match binding {
        CommandKeybind::SimpleKeybind(c) => step matches KeyStep::Run(r) && *r == c,
        CommandKeybind::CompositeKeybind(m) => step matches KeyStep::More(r) && *r == m,
    }
}

/// Whether `step` is what the key `ch` leads to in `keymap`: what its
/// first binding says, or nothing where it has none.
pub open spec fn spec_is_lookup<C>(
    keymap: Seq<(i32, CommandKeybind<C>)>,
    ch: i32,
    step: KeyStep<C>,
) -> bool {
    match spec_binding_index(keymap, ch) {
        Some(i) => spec_step_of(keymap[i].1, step),
        None => step is Nothing,
    }
}

/// The command that a sequence of keys leads to in `keymap`, with the
/// number of keys that were used up to find it.
///
/// The keys are looked up one after the other, each in the bindings that
/// the key before it opened. The walk ends with the command at the first
/// key that is bound to one. It ends without a command at a key that is
/// bound to nothing, at the escape key where it is not the first key, and
/// where the keys run out.
pub open spec fn spec_resolve<C>(
    keymap: Seq<(i32, CommandKeybind<C>)>,
    keys: Seq<i32>,
    first: bool,
) -> (Option<C>, nat)
    decreases keys.len(),
{
    if keys.len() == 0 {
        (None, 0)
    } else if !first && keys[0] == ESCAPE {
        (None, 1)
    } else {
        match spec_binding_index(keymap, keys[0]) {
            None => (None, 1),
            Some(i) => match keymap[i].1 {
                CommandKeybind::SimpleKeybind(c) => (Some(c), 1),
                CommandKeybind::CompositeKeybind(m) => {
                    let rest = spec_resolve(m@, keys.skip(1), false);
                    (rest.0, rest.1 + 1)
                },
            },
        }
    }
}

/// What a sequence of keys led to: the command, if it led to one, and the
/// number of keys that were used up.
#[derive(Debug)]
pub struct Resolved<'a, C> {
    pub command: Option<&'a C>,
    pub used: usize,
}

/// The first place in `keymap` that binds the key `ch`.
pub fn binding_index<C>(keymap: &Vec<(i32, CommandKeybind<C>)>, ch: i32) -> (r: Option<usize>)
    ensures
        r is Some == spec_binding_index(keymap@, ch) is Some,
        r matches Some(i) ==> spec_binding_index(keymap@, ch) == Some(i as int) && i
            < keymap.len() && keymap@[i as int].0 == ch,
{
    let n = keymap.len();
    let mut i: usize = 0;
    while i < n
        invariant
            i <= n,
            n == keymap.len(),
            forall|j: int| 0 <= j < i ==> keymap[j].0 != ch,
        decreases n - i,
    {
        if keymap[i].0 == ch {
            proof {
                lemma_binding_index(keymap@, ch, i as int);
            }
            return Some(i);
        }
        i = i + 1;
    }
    None
}

/// What the first key of a sequence leads to in `keymap`.
pub fn first_key<'a, C>(keymap: &'a Vec<(i32, CommandKeybind<C>)>, ch: i32) -> (r: KeyStep<'a, C>)
    ensures
        spec_is_lookup(keymap@, ch, r),
{
    match binding_index(keymap, ch) {
        Some(i) => match &keymap[i].1 {
            CommandKeybind::SimpleKeybind(c) => KeyStep::Run(c),
            CommandKeybind::CompositeKeybind(m) => KeyStep::More(m),
        },
        None => KeyStep::Nothing,
    }
}

/// What a later key of a sequence leads to in the bindings `keymap` that
/// the keys before it opened: the escape key gives the sequence up,
/// whatever it is bound to; any other key is looked up.
pub fn next_key<'a, C>(keymap: &'a Vec<(i32, CommandKeybind<C>)>, ch: i32) -> (r: KeyStep<'a, C>)
    ensures
        ch == ESCAPE ==> r is Nothing,
        ch != ESCAPE ==> spec_is_lookup(keymap@, ch, r),
{
    if ch == ESCAPE {
        KeyStep::Nothing
    } else {
        first_key(keymap, ch)
    }
}

/// The command that the keys `keys` lead to in `keymap` (see
/// `spec_resolve`). The bindings are walked without recursion.
pub fn resolve<'a, C>(keymap: &'a Vec<(i32, CommandKeybind<C>)>, keys: &Vec<i32>) -> (r: Resolved<
    'a,
    C,
>)
    ensures
        r.used == spec_resolve(keymap@, keys@, true).1,
        r.command is Some == spec_resolve(keymap@, keys@, true).0 is Some,
        r.command matches Some(c) ==> *c == spec_resolve(keymap@, keys@, true).0->0,
{
    let n = keys.len();
    let mut current: &'a Vec<(i32, CommandKeybind<C>)> = keymap;
    let mut k: usize = 0;
    assert(keys@.skip(0) =~= keys@);
    while k < n
        invariant
            k <= n,
            n == keys.len(),
            spec_resolve(keymap@, keys@, true).0 == spec_resolve(
                current@,
                keys@.skip(k as int),
                k == 0,
            ).0,
            spec_resolve(keymap@, keys@, true).1 == spec_resolve(
                current@,
                keys@.skip(k as int),
                k == 0,
            ).1 + k,
        decreases n - k,
    {
        let ch = keys[k];
        assert(keys@.skip(k as int)[0] == ch);
        assert(keys@.skip(k as int).skip(1) =~= keys@.skip(k as int + 1));
        let step = if k == 0 {
            first_key(current, ch)
        } else {
            next_key(current, ch)
        };
        match step {
            KeyStep::Run(command) => {
                return Resolved { command: Some(command), used: k + 1 };
            },
            KeyStep::More(more) => {
                current = more;
            },
            KeyStep::Nothing => {
                return Resolved { command: None, used: k + 1 };
            },
        }
        k = k + 1;
    }
    Resolved { command: None, used: n }
}

/// Whether the keys `keys` can be bound to a command in `keymap`: there
/// is at least one key, no key before the last is bound to a command, and
/// the last key is not bound to anything.
pub open spec fn spec_can_bind<C>(keymap: Seq<(i32, CommandKeybind<C>)>, keys: Seq<i32>) -> bool
    decreases keys.len(),
{
    keys.len() > 0 && (match spec_binding_index(keymap, keys[0]) {
        None => true,
        Some(i) => keys.len() > 1 && (match keymap[i].1 {
            CommandKeybind::SimpleKeybind(_) => false,
            CommandKeybind::CompositeKeybind(m) => spec_can_bind(m@, keys.skip(1)),
        }),
    })
}

/// Whether `binding` is what a key is bound to so that the keys `keys`
/// after it lead to `command`, and to nothing else: the command itself
/// where no key follows, else bindings of the next key alone.
pub open spec fn spec_is_chain<C>(binding: CommandKeybind<C>, keys: Seq<i32>, command: C) -> bool
    decreases keys.len(),
{
    if keys.len() == 0 {
        binding == CommandKeybind::SimpleKeybind(command)
    } else {
        match binding {
            CommandKeybind::SimpleKeybind(_) => false,
            CommandKeybind::CompositeKeybind(m) => {
                &&& m@.len() == 1
                &&& m@[0].0 == keys[0]
                &&& spec_is_chain(m@[0].1, keys.skip(1), command)
            },
        }
    }
}

/// Whether `after` is `before` with the keys `keys` bound to `command`.
/// Where the first key was not bound, a binding for it stands behind the
/// others. Where it opened further bindings, the rest of the keys is
/// bound in them. Every other binding is as it was.
pub open spec fn spec_is_bound<C>(
    before: Seq<(i32, CommandKeybind<C>)>,
    after: Seq<(i32, CommandKeybind<C>)>,
    keys: Seq<i32>,
    command: C,
) -> bool
    decreases keys.len(),
{
    keys.len() > 0 && (match spec_binding_index(before, keys[0]) {
        None => {
            &&& after.len() == before.len() + 1
            &&& after.take(before.len() as int) == before
            &&& after.last().0 == keys[0]
            &&& spec_is_chain(after.last().1, keys.skip(1), command)
        },
        Some(i) => {
            &&& after.len() == before.len()
            &&& forall|j: int| 0 <= j < before.len() && j != i ==> after[j] == before[j]
            &&& after[i].0 == before[i].0
            &&& match (before[i].1, after[i].1) {
                (CommandKeybind::CompositeKeybind(m), CommandKeybind::CompositeKeybind(n)) => {
                    spec_is_bound(m@, n@, keys.skip(1), command)
                },
                _ => false,
            }
        },
    })
}

/// Whether the keys `keys` can be bound to a command in `keymap` (see
/// `spec_can_bind`).
pub fn can_bind<C>(keymap: &Vec<(i32, CommandKeybind<C>)>, keys: &Vec<i32>) -> (r: bool)
    ensures
        r == spec_can_bind(keymap@, keys@),
{
    let n = keys.len();
    if n == 0 {
        return false;
    }
    let mut current = keymap;
    let mut k: usize = 0;
    assert(keys@.skip(0) =~= keys@);
    loop
        invariant
            k < n,
            n == keys.len(),
            spec_can_bind(keymap@, keys@) == spec_can_bind(current@, keys@.skip(k as int)),
        decreases n - k,
    {
        assert(keys@.skip(k as int)[0] == keys@[k as int]);
        assert(keys@.skip(k as int).skip(1) =~= keys@.skip(k as int + 1));
        match binding_index(current, keys[k]) {
            None => {
                return true;
            },
            Some(i) => {
                if k + 1 == n {
                    return false;
                }
                match &current[i].1 {
                    CommandKeybind::SimpleKeybind(_) => {
                        return false;
                    },
                    CommandKeybind::CompositeKeybind(m) => {
                        current = m;
                        k = k + 1;
                    },
                }
            },
        }
    }
}

/// What a key is bound to so that the keys from `from` on lead to
/// `command`.
fn chain<C>(command: C, keys: &Vec<i32>, from: usize) -> (r: CommandKeybind<C>)
    requires
        from <= keys.len(),
    ensures
        spec_is_chain(r, keys@.skip(from as int), command),
    decreases keys.len() - from,
{
    if from == keys.len() {
        CommandKeybind::SimpleKeybind(command)
    } else {
        let inner = chain(command, keys, from + 1);
        let mut bindings: Vec<(i32, CommandKeybind<C>)> = Vec::new();
        bindings.push((keys[from], inner));
        assert(keys@.skip(from as int)[0] == keys@[from as int]);
        assert(keys@.skip(from as int).skip(1) =~= keys@.skip(from as int + 1));
        CommandKeybind::CompositeKeybind(bindings)
    }
}

/// Binds the keys from `from` on to `command`.
fn bind_from<C>(keymap: &mut Vec<(i32, CommandKeybind<C>)>, command: C, keys: &Vec<i32>, from: usize)
    requires
        from < keys.len(),
        spec_can_bind(old(keymap)@, keys@.skip(from as int)),
    ensures
        spec_is_bound(old(keymap)@, final(keymap)@, keys@.skip(from as int), command),
    decreases keys.len() - from,
{
    let ch = keys[from];
    assert(keys@.skip(from as int)[0] == ch);
    assert(keys@.skip(from as int).skip(1) =~= keys@.skip(from as int + 1));
    match binding_index(keymap, ch) {
        None => {
            let binding = chain(command, keys, from + 1);
            keymap.push((ch, binding));
            assert(keymap@.take(old(keymap)@.len() as int) =~= old(keymap)@);
        },
        Some(i) => {
            let (key, binding) = keymap.remove(i);
            match binding {
                CommandKeybind::CompositeKeybind(mut inner) => {
                    bind_from(&mut inner, command, keys, from + 1);
                    keymap.insert(i, (key, CommandKeybind::CompositeKeybind(inner)));
                },
                CommandKeybind::SimpleKeybind(c) => {
                    proof {
                        assert(false);
                    }
                    keymap.insert(i, (key, CommandKeybind::SimpleKeybind(c)));
                },
            }
        },
    }
}

/// Binds the keys `keys` to `command` in `keymap`. Where they cannot be
/// bound (see `spec_can_bind`), the bindings stay as they were and the
/// command is handed back.
pub fn insert_keycommand<C>(
    keymap: &mut Vec<(i32, CommandKeybind<C>)>,
    command: C,
    keys: &Vec<i32>,
) -> (r: Result<(), C>)
    ensures
        r is Ok == spec_can_bind(old(keymap)@, keys@),
        r is Ok ==> spec_is_bound(old(keymap)@, final(keymap)@, keys@, command),
        r is Err ==> *final(keymap) == *old(keymap) && r->Err_0 == command,
{
    if !can_bind(keymap, keys) {
        return Err(command);
    }
    assert(keys@.skip(0) =~= keys@);
    bind_from(keymap, command, keys, 0);
    Ok(())
}

/// A key that some place binds has a first place that binds it.
pub proof fn lemma_first_binding<C>(keymap: Seq<(i32, CommandKeybind<C>)>, ch: i32, j: int)
    requires
        0 <= j < keymap.len(),
        keymap[j].0 == ch,
    ensures
        spec_binding_index(keymap, ch) is Some,
        spec_binding_index(keymap, ch)->0 <= j,
    decreases j,
{
    if exists|k: int| 0 <= k < j && keymap[k].0 == ch {
        let k = choose|k: int| 0 <= k < j && keymap[k].0 == ch;
        lemma_first_binding(keymap, ch, k);
    } else {
        assert(spec_bound_at(keymap, ch, j));
        lemma_binding_index(keymap, ch, j);
    }
}

/// What `spec_binding_index` gives is the first place that binds the key.
pub proof fn lemma_binding_index_is_first<C>(keymap: Seq<(i32, CommandKeybind<C>)>, ch: i32)
    ensures
        spec_binding_index(keymap, ch) matches Some(i) ==> spec_bound_at(keymap, ch, i),
        spec_binding_index(keymap, ch) is None ==> forall|j: int|
            0 <= j < keymap.len() ==> keymap[j].0 != ch,
{
    if spec_binding_index(keymap, ch) is None {
        assert forall|j: int| 0 <= j < keymap.len() implies keymap[j].0 != ch by {
            if keymap[j].0 == ch {
                lemma_first_binding(keymap, ch, j);
            }
        }
    }
}

/// Two lists of bindings with the same keys in the same places bind each
/// key at the same place.
pub proof fn lemma_binding_index_by_keys<C>(
    a: Seq<(i32, CommandKeybind<C>)>,
    b: Seq<(i32, CommandKeybind<C>)>,
    ch: i32,
)
    requires
        a.len() == b.len(),
        forall|j: int| 0 <= j < a.len() ==> a[j].0 == b[j].0,
    ensures
        spec_binding_index(a, ch) == spec_binding_index(b, ch),
{
    lemma_binding_index_is_first(a, ch);
    lemma_binding_index_is_first(b, ch);
    if spec_binding_index(a, ch) is Some {
        let i = spec_binding_index(a, ch)->0;
        assert(spec_bound_at(b, ch, i));
        lemma_binding_index(b, ch, i);
    } else if spec_binding_index(b, ch) is Some {
        let i = spec_binding_index(b, ch)->0;
        assert(a[i].0 == ch);
    }
}

/// A binding behind the others does not change where the keys that the
/// others bind are bound, and binds its own key where no other does.
pub proof fn lemma_binding_index_push<C>(
    before: Seq<(i32, CommandKeybind<C>)>,
    after: Seq<(i32, CommandKeybind<C>)>,
    ch: i32,
)
    requires
        after.len() == before.len() + 1,
        after.take(before.len() as int) == before,
    ensures
        spec_binding_index(before, ch) is Some ==> spec_binding_index(after, ch)
            == spec_binding_index(before, ch),
        spec_binding_index(before, ch) is None && after.last().0 == ch ==> spec_binding_index(
            after,
            ch,
        ) == Some(before.len() as int),
        spec_binding_index(before, ch) is None && after.last().0 != ch ==> spec_binding_index(
            after,
            ch,
        ) is None,
{
    lemma_binding_index_is_first(before, ch);
    lemma_binding_index_is_first(after, ch);
    assert forall|j: int| 0 <= j < before.len() implies after[j] == before[j] by {
        assert(after.take(before.len() as int)[j] == after[j]);
    }
    if spec_binding_index(before, ch) is Some {
        let i = spec_binding_index(before, ch)->0;
        assert(spec_bound_at(after, ch, i));
        lemma_binding_index(after, ch, i);
    } else if after.last().0 == ch {
        assert(spec_bound_at(after, ch, before.len() as int));
        lemma_binding_index(after, ch, before.len() as int);
    } else if spec_binding_index(after, ch) is Some {
        let i = spec_binding_index(after, ch)->0;
        assert(after[i].0 == ch);
        assert(i < before.len());
        assert(before[i].0 == ch);
    }
}

/// The keys of a chain lead to its command where none of them is the
/// escape key.
pub proof fn lemma_chain_leads<C>(keymap: Seq<(i32, CommandKeybind<C>)>, keys: Seq<i32>, command: C)
    requires
        keys.len() > 0,
        keymap.len() == 1,
        keymap[0].0 == keys[0],
        spec_is_chain(keymap[0].1, keys.skip(1), command),
        forall|j: int| 0 <= j < keys.len() ==> keys[j] != ESCAPE,
    ensures
        spec_resolve(keymap, keys, false) == (Some(command), keys.len()),
    decreases keys.len(),
{
    assert(spec_bound_at(keymap, keys[0], 0));
    lemma_binding_index(keymap, keys[0], 0);
    let rest = keys.skip(1);
    match keymap[0].1 {
        CommandKeybind::SimpleKeybind(c) => {},
        CommandKeybind::CompositeKeybind(m) => {
            assert(rest.len() > 0);
            assert forall|j: int| 0 <= j < rest.len() implies rest[j] != ESCAPE by {
                assert(rest[j] == keys[j + 1]);
            }
            lemma_chain_leads(m@, rest, command);
        },
    }
}

/// Keys that were bound to a command lead to it, where none of them but
/// the first is the escape key.
pub proof fn lemma_bound_keys_lead_to_command<C>(
    before: Seq<(i32, CommandKeybind<C>)>,
    after: Seq<(i32, CommandKeybind<C>)>,
    keys: Seq<i32>,
    command: C,
    first: bool,
)
    requires
        spec_is_bound(before, after, keys, command),
        first || keys[0] != ESCAPE,
        forall|j: int| 1 <= j < keys.len() ==> keys[j] != ESCAPE,
    ensures
        spec_resolve(after, keys, first) == (Some(command), keys.len()),
    decreases keys.len(),
{
    let ch = keys[0];
    let rest = keys.skip(1);
    assert forall|j: int| 0 <= j < rest.len() implies rest[j] != ESCAPE by {
        assert(rest[j] == keys[j + 1]);
    }
    match spec_binding_index(before, ch) {
        None => {
            lemma_binding_index_push(before, after, ch);
            match after.last().1 {
                CommandKeybind::SimpleKeybind(c) => {},
                CommandKeybind::CompositeKeybind(m) => {
                    lemma_chain_leads(m@, rest, command);
                },
            }
        },
        Some(i) => {
            lemma_binding_index_is_first(before, ch);
            lemma_binding_index_by_keys(before, after, ch);
            match (before[i].1, after[i].1) {
                (CommandKeybind::CompositeKeybind(m), CommandKeybind::CompositeKeybind(n)) => {
                    reveal_with_fuel(spec_is_bound, 2);
                    assert(rest.len() > 0);
                    assert(rest[0] != ESCAPE);
                    lemma_bound_keys_lead_to_command(m@, n@, rest, command, false);
                },
                _ => {},
            }
        },
    }
}

/// Keys that do not begin with the keys of a chain lead to nothing in it.
pub proof fn lemma_chain_leads_nowhere_else<C>(
    keymap: Seq<(i32, CommandKeybind<C>)>,
    keys: Seq<i32>,
    command: C,
    other: Seq<i32>,
)
    requires
        keys.len() > 0,
        keymap.len() == 1,
        keymap[0].0 == keys[0],
        spec_is_chain(keymap[0].1, keys.skip(1), command),
        !keys.is_prefix_of(other),
    ensures
        spec_resolve(keymap, other, false).0 is None,
    decreases other.len(),
{
    if other.len() > 0 && other[0] != ESCAPE {
        lemma_binding_index_is_first(keymap, other[0]);
        if other[0] == keys[0] {
            assert(spec_bound_at(keymap, other[0], 0));
            lemma_binding_index(keymap, other[0], 0);
            match keymap[0].1 {
                CommandKeybind::SimpleKeybind(c) => {
                    assert(keys.len() == 1);
                    assert(keys =~= other.subrange(0, 1));
                },
                CommandKeybind::CompositeKeybind(m) => {
                    assert(!keys.skip(1).is_prefix_of(other.skip(1))) by {
                        if keys.skip(1).is_prefix_of(other.skip(1)) {
                            assert(keys =~= other.subrange(0, keys.len() as int)) by {
                                assert forall|j: int| 0 <= j < keys.len() implies keys[j]
                                    == other[j] by {
                                    if j > 0 {
                                        assert(keys.skip(1)[j - 1] == other.skip(1).subrange(
                                            0,
                                            keys.len() - 1,
                                        )[j - 1]);
                                    }
                                }
                            }
                        }
                    }
                    lemma_chain_leads_nowhere_else(m@, keys.skip(1), command, other.skip(1));
                },
            }
        }
    }
}

/// Binding keys to a command changes nothing for the keys that do not
/// begin with them: they lead to the command to which they led before, or
/// to none as before.
pub proof fn lemma_bound_keeps_others<C>(
    before: Seq<(i32, CommandKeybind<C>)>,
    after: Seq<(i32, CommandKeybind<C>)>,
    keys: Seq<i32>,
    command: C,
    other: Seq<i32>,
    first: bool,
)
    requires
        spec_is_bound(before, after, keys, command),
        !keys.is_prefix_of(other),
    ensures
        spec_resolve(after, other, first).0 == spec_resolve(before, other, first).0,
    decreases other.len(),
{
    if other.len() > 0 && (first || other[0] != ESCAPE) {
        let ch = other[0];
        let skip_gives_prefix = keys.skip(1).is_prefix_of(other.skip(1));
        if ch == keys[0] && skip_gives_prefix {
            assert(keys =~= other.subrange(0, keys.len() as int)) by {
                assert forall|j: int| 0 <= j < keys.len() implies keys[j] == other[j] by {
                    if j > 0 {
                        assert(keys.skip(1)[j - 1] == other.skip(1).subrange(
                            0,
                            keys.len() - 1,
                        )[j - 1]);
                    }
                }
            }
        }
        lemma_binding_index_is_first(before, ch);
        lemma_binding_index_is_first(before, keys[0]);
        match spec_binding_index(before, keys[0]) {
            None => {
                lemma_binding_index_push(before, after, ch);
                assert forall|j: int| 0 <= j < before.len() implies after[j] == before[j] by {
                    assert(after.take(before.len() as int)[j] == after[j]);
                }
                if ch == keys[0] {
                    match after.last().1 {
                        CommandKeybind::SimpleKeybind(c) => {
                            assert(keys.len() == 1);
                            assert(keys =~= other.subrange(0, 1));
                        },
                        CommandKeybind::CompositeKeybind(m) => {
                            lemma_chain_leads_nowhere_else(
                                m@,
                                keys.skip(1),
                                command,
                                other.skip(1),
                            );
                        },
                    }
                }
            },
            Some(i) => {
                lemma_binding_index_by_keys(before, after, ch);
                if ch == keys[0] {
                    match (before[i].1, after[i].1) {
                        (
                            CommandKeybind::CompositeKeybind(m),
                            CommandKeybind::CompositeKeybind(n),
                        ) => {
                            lemma_bound_keeps_others(
                                m@,
                                n@,
                                keys.skip(1),
                                command,
                                other.skip(1),
                                false,
                            );
                        },
                        _ => {},
                    }
                }
            },
        }
    }
}

} // verus!
