//! Which audio sources are played, and in what order.
use vstd::prelude::*;
use vstd::string::StrSliceExecFns;

verus! {

/// The file name `name` has the extension `wav`: it ends in `.wav` after a
/// stem of at least one character.
pub open spec fn is_wav_name(name: Seq<char>) -> bool {
    &&& name.len() > 4
    &&& name[name.len() - 4] == '.'
    &&& name[name.len() - 3] == 'w'
    &&& name[name.len() - 2] == 'a'
    &&& name[name.len() - 1] == 'v'
}

/// Whether the file named `name` is a candidate for playback.
pub fn has_wav_extension(name: &str) -> (r: bool)
    ensures
        r == is_wav_name(name@),
{
    let n = name.unicode_len();
    if n <= 4 {
        return false;
    }
    name.get_char(n - 4) == '.' && name.get_char(n - 3) == 'w' && name.get_char(n - 2) == 'a'
        && name.get_char(n - 1) == 'v'
}

/// Source `i` is played: its name is a `.wav` name and it could be opened
/// as a WAV file.
pub open spec fn is_playable(names: Seq<Seq<char>>, readable: Seq<bool>, i: int) -> bool {
    is_wav_name(names[i]) && readable[i]
}

/// The playable sources among the first `n`, in the order given.
pub open spec fn playable_prefix(names: Seq<Seq<char>>, readable: Seq<bool>, n: nat) -> Seq<usize>
    decreases n,
{
    if n == 0 {
        Seq::empty()
    } else {
        let rest = playable_prefix(names, readable, (n - 1) as nat);
        if is_playable(names, readable, n - 1) {
            rest.push((n - 1) as usize)
        } else {
            rest
        }
    }
}

pub open spec fn names_view(names: Seq<String>) -> Seq<Seq<char>> {
    names.map_values(|s: String| s@)
}

/// The indices of the sources that are played, in the order given:
/// those whose name is a `.wav` name and which could be opened. The others
/// are skipped.
pub fn playable_sources(names: &Vec<String>, readable: &Vec<bool>) -> (r: Vec<usize>)
    requires
        names@.len() == readable@.len(),
    ensures
        r@ == playable_prefix(names_view(names@), readable@, names@.len() as nat),
{
    let mut r: Vec<usize> = Vec::new();
    let mut i: usize = 0;
    while i < names.len()
        invariant
            i <= names@.len() == readable@.len(),
            r@ == playable_prefix(names_view(names@), readable@, i as nat),
        decreases names@.len() - i,
    {
        let keep = has_wav_extension(names[i].as_str()) && readable[i];
        if keep {
            r.push(i);
        }
        i = i + 1;
    }
    r
}

/// The playable sources keep the order given, and each stands for a
/// source that is played.
pub proof fn lemma_playable_ordered(names: Seq<Seq<char>>, readable: Seq<bool>, n: nat)
    requires
        n <= names.len(),
        n <= readable.len(),
        n <= usize::MAX,
    ensures
        forall|a: int, b: int|
            0 <= a < b < playable_prefix(names, readable, n).len() ==> #[trigger] playable_prefix(
                names,
                readable,
                n,
            )[a] < #[trigger] playable_prefix(names, readable, n)[b],
        forall|a: int|
            0 <= a < playable_prefix(names, readable, n).len() ==> {
                let i = #[trigger] playable_prefix(names, readable, n)[a];
                &&& i < n
                &&& is_playable(names, readable, i as int)
            },
    decreases n,
{
    if n > 0 {
        lemma_playable_ordered(names, readable, (n - 1) as nat);
        let rest = playable_prefix(names, readable, (n - 1) as nat);
        let full = playable_prefix(names, readable, n);
        if is_playable(names, readable, n - 1) {
            assert(full == rest.push((n - 1) as usize));
        } else {
            assert(full == rest);
        }
        assert forall|a: int| 0 <= a < full.len() implies {
            let i = #[trigger] full[a];
            &&& i < n
            &&& is_playable(names, readable, i as int)
        } by {
            if a < rest.len() {
                assert(full[a] == rest[a]);
                assert(rest[a] < n - 1);
            }
        }
        assert forall|a: int, b: int| 0 <= a < b < full.len() implies #[trigger] full[a]
            < #[trigger] full[b] by {
            if b < rest.len() {
                assert(full[a] == rest[a] && full[b] == rest[b]);
            } else {
                assert(full[a] == rest[a]);
                assert(rest[a] < n - 1);
                assert(full[b] == n - 1);
            }
        }
    }
}

/// A source that is played is among the playable sources.
pub proof fn lemma_playable_complete(names: Seq<Seq<char>>, readable: Seq<bool>, n: nat, i: int)
    requires
        n <= names.len(),
        n <= readable.len(),
        n <= usize::MAX,
        0 <= i < n,
        is_playable(names, readable, i),
    ensures
        playable_prefix(names, readable, n).contains(i as usize),
    decreases n,
{
    if i < n - 1 {
        lemma_playable_complete(names, readable, (n - 1) as nat, i);
        let rest = playable_prefix(names, readable, (n - 1) as nat);
        let k = choose|k: int| 0 <= k < rest.len() && rest[k] == i as usize;
        if is_playable(names, readable, n - 1) {
            assert(rest.push((n - 1) as usize)[k] == i as usize);
        }
    } else {
        let full = playable_prefix(names, readable, n);
        assert(full[full.len() - 1] == i as usize);
    }
}

/// The source played after source `current` of `n`: the next one, and after
/// the last the first again where the list loops.
pub open spec fn next_source_spec(current: nat, n: nat, looping: bool) -> Option<nat> {
    if current + 1 < n {
        Some(current + 1)
    } else if looping && n > 0 {
        Some(0)
    } else {
        None
    }
}

/// The first source of `n`, if there is one.
pub open spec fn first_source_spec(n: nat) -> Option<nat> {
    if n > 0 {
        Some(0)
    } else {
        None
    }
}

/// The source played in turn `k` (counting from 0), if the run gets that far.
pub open spec fn source_at_turn(n: nat, looping: bool, k: nat) -> Option<nat>
    decreases k,
{
    if k == 0 {
        first_source_spec(n)
    } else {
        match source_at_turn(n, looping, (k - 1) as nat) {
            Some(c) => next_source_spec(c, n, looping),
            None => None,
        }
    }
}

pub fn first_source(n: usize) -> (r: Option<usize>)
    ensures
        r matches Some(i) ==> first_source_spec(n as nat) == Some(i as nat),
        r is None <==> first_source_spec(n as nat) is None,
{
    if n > 0 {
        Some(0)
    } else {
        None
    }
}

pub fn next_source(current: usize, n: usize, looping: bool) -> (r: Option<usize>)
    requires
        current < n,
    ensures
        r matches Some(i) ==> next_source_spec(current as nat, n as nat, looping) == Some(
            i as nat,
        ),
        r is None <==> next_source_spec(current as nat, n as nat, looping) is None,
{
    if current + 1 < n {
        Some(current + 1)
    } else if looping {
        Some(0)
    } else {
        None
    }
}

/// A looping run over `n` sources plays source `k mod n` in turn `k`: after
/// the last source it starts again at the first.
pub proof fn lemma_looping_order(n: nat, k: nat)
    requires
        n > 0,
    ensures
        source_at_turn(n, true, k) == Some(k % n),
    decreases k,
{
    if k == 0 {
        vstd::arithmetic::div_mod::lemma_small_mod(0, n);
    } else {
        lemma_looping_order(n, (k - 1) as nat);
        let c = ((k - 1) as nat) % n;
        let q = ((k - 1) as int) / (n as int);
        vstd::arithmetic::div_mod::lemma_fundamental_div_mod((k - 1) as int, n as int);
        vstd::arithmetic::mul::lemma_mul_is_commutative(q, n as int);
        assert((k - 1) as int == q * n + c);
        if c + 1 < n {
            vstd::arithmetic::div_mod::lemma_fundamental_div_mod_converse_mod(
                k as int,
                n as int,
                q,
                c + 1 as int,
            );
        } else {
            assert(k as int == (q + 1) * n + 0) by (nonlinear_arith)
                requires
                    (k - 1) as int == q * n + c,
                    c + 1 == n,
                    k > 0,
            ;
            vstd::arithmetic::div_mod::lemma_fundamental_div_mod_converse_mod(
                k as int,
                n as int,
                q + 1,
                0,
            );
        }
    }
}

/// A run that does not loop plays the `n` sources once each, in order, and
/// then ends.
pub proof fn lemma_single_pass_order(n: nat, k: nat)
    ensures
        k < n ==> source_at_turn(n, false, k) == Some(k),
        k >= n ==> source_at_turn(n, false, k) is None,
    decreases k,
{
    if k > 0 {
        lemma_single_pass_order(n, (k - 1) as nat);
    }
}

} // verus!
