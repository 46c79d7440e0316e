//! The opcode-position transformation pipeline.
//!
//! Each rewrite pass over a circuit reports a position map: for every opcode
//! of its output, the index of the opcode of its input that it originated
//! from. Composing the maps of successive passes yields a single
//! correspondence from pre-pipeline indices to post-pipeline indices, which
//! is then used to relocate debug annotations onto the rewritten opcodes.

use vstd::prelude::*;

verus! {

/// A single addressable point in a circuit: either a top-level opcode, or a
/// sub-instruction inside the unconstrained block hosted by a top-level
/// opcode. Passes renumber the top-level index only; the sub-instruction
/// index is never touched.
#[derive(Debug, Clone, Copy, PartialEq, Eq, Hash, Structural)]
pub enum OpcodeLocation {
    Acir(usize),
    Brillig { acir_index: usize, brillig_index: usize },
}

/// The proving backend's bound on how many terms one constraint may
/// reference. Carried through the pipeline to the width-transformer pass.
#[derive(Debug, Clone, Copy, PartialEq, Eq, Structural)]
pub enum ExpressionWidth {
    Unbounded,
    Bounded { width: usize },
}

/// A circuit: an ordered sequence of opcodes (opaque to this module) plus
/// the debug annotations attached to specific opcode locations.
pub struct Circuit<T> {
    pub opcodes: Vec<T>,
    pub assert_messages: Vec<(OpcodeLocation, String)>,
}

/// The top-level index that a location occupies before a pass renumbers it.
pub open spec fn acir_index_of(loc: OpcodeLocation) -> usize {
    match loc {
        OpcodeLocation::Acir(index) => index,
        OpcodeLocation::Brillig { acir_index, brillig_index } => acir_index,
    }
}

/// The location obtained by moving `loc` to top-level index `new_index`,
/// keeping its shape and its sub-instruction index.
pub open spec fn relocate(loc: OpcodeLocation, new_index: usize) -> OpcodeLocation {
    match loc {
        OpcodeLocation::Acir(index) => OpcodeLocation::Acir(new_index),
        OpcodeLocation::Brillig { acir_index, brillig_index } => OpcodeLocation::Brillig {
            acir_index: new_index,
            brillig_index,
        },
    }
}

/// The indices `j < n` with `positions[j] == old_index`, in ascending order.
pub open spec fn matching_indices_up_to(positions: Seq<usize>, old_index: usize, n: int) -> Seq<
    usize,
>
    decreases n,
{
    if n <= 0 {
        Seq::empty()
    } else if positions[n - 1] == old_index {
        matching_indices_up_to(positions, old_index, n - 1).push((n - 1) as usize)
    } else {
        matching_indices_up_to(positions, old_index, n - 1)
    }
}

/// Every location of the new circuit that descends from `old_location`,
/// given the position map `positions` (new index -> old index), in ascending
/// order of new index.
pub open spec fn new_locations_of(positions: Seq<usize>, old_location: OpcodeLocation) -> Seq<
    OpcodeLocation,
> {
    matching_indices_up_to(positions, acir_index_of(old_location), positions.len() as int)
        .map_values(|j: usize| relocate(old_location, j))
}

/// Holds when every entry of the position map `positions` is a valid index
/// into a prior-stage circuit of `bound` opcodes.
pub open spec fn positions_valid(positions: Seq<usize>, bound: nat) -> bool {
    forall|i: int| 0 <= i < positions.len() ==> (positions[i] as nat) < bound
}

/// The composition of two position maps: `map1` maps the middle stage back
/// to the old one, `map2` maps the new stage back to the middle one.
pub open spec fn composed_positions(map1: Seq<usize>, map2: Seq<usize>) -> Seq<usize> {
    map2.map_values(|mid: usize| map1[mid as int])
}

/// The position map of a pass that moves nothing: entry `i` is `i`.
pub open spec fn identity_positions(n: nat) -> Seq<usize> {
    Seq::new(n, |i: int| i as usize)
}

/// Composes the position maps of two successive passes. `map1` is the first
/// pass's map (middle index -> old index), `map2` the second pass's map
/// (new index -> middle index); the result maps each new index straight to
/// the old index it descends from.
pub fn compose_position_maps(map1: &Vec<usize>, map2: &Vec<usize>) -> (composed: Vec<usize>)
    requires
        positions_valid(map2@, map1@.len() as nat),
    ensures
        composed@.len() == map2@.len(),
        forall|i: int| 0 <= i < map2@.len() ==> composed@[i] == map1@[map2@[i] as int],
        composed@ == composed_positions(map1@, map2@),
{
    let mut composed: Vec<usize> = Vec::new();
    let mut i: usize = 0;
    while i < map2.len()
        invariant
            i <= map2@.len(),
            positions_valid(map2@, map1@.len() as nat),
            composed@.len() == i,
            forall|k: int| 0 <= k < i ==> composed@[k] == map1@[map2@[k] as int],
        decreases map2@.len() - i,
    {
        let mid = map2[i];
        composed.push(map1[mid]);
        i += 1;
    }
    proof {
        assert(composed@ =~= composed_positions(map1@, map2@));
    }
    composed
}

/// Composing a position map with the identity map of its own length, the
/// identity standing for a later pass that moved nothing, gives back the
/// original map.
pub proof fn lemma_compose_with_identity_after(map1: Seq<usize>)
    requires
        map1.len() <= usize::MAX,
    ensures
        composed_positions(map1, identity_positions(map1.len() as nat)) == map1,
{
    assert(composed_positions(map1, identity_positions(map1.len() as nat)) =~= map1);
}

/// Composing the identity map of a prior stage, standing for an earlier pass
/// that moved nothing, with any position map valid for that stage gives back
/// the original map.
pub proof fn lemma_compose_with_identity_before(map2: Seq<usize>, n: nat)
    requires
        positions_valid(map2, n),
    ensures
        composed_positions(identity_positions(n), map2) == map2,
{
    assert(composed_positions(identity_positions(n), map2) =~= map2);
}

/// The matching indices collected up to `n` are themselves below `n` and
/// strictly ascending.
proof fn lemma_matching_indices_ascending(positions: Seq<usize>, old_index: usize, n: int)
    requires
        n <= positions.len(),
        positions.len() <= usize::MAX,
    ensures
        forall|k: int|
            0 <= k < matching_indices_up_to(positions, old_index, n).len() ==> (
            matching_indices_up_to(positions, old_index, n)[k] as int) < n,
        forall|k1: int, k2: int|
            0 <= k1 < k2 < matching_indices_up_to(positions, old_index, n).len()
                ==> matching_indices_up_to(positions, old_index, n)[k1]
                < matching_indices_up_to(positions, old_index, n)[k2],
    decreases n,
{
    if n > 0 {
        lemma_matching_indices_ascending(positions, old_index, n - 1);
        let prior = matching_indices_up_to(positions, old_index, n - 1);
        if positions[n - 1] == old_index {
            let grown = prior.push((n - 1) as usize);
            assert(forall|k: int| 0 <= k < prior.len() ==> grown[k] == prior[k]);
            assert(grown[prior.len() as int] == (n - 1) as usize);
        }
    }
}

/// Every index that the position map sends to `old_index` is collected: if
/// `positions[i] == old_index` and `i < n`, then `i` appears among the
/// matching indices up to `n`.
proof fn lemma_matching_indices_complete(positions: Seq<usize>, old_index: usize, n: int, i: int)
    requires
        0 <= i < n <= positions.len(),
        positions[i] == old_index,
    ensures
        matching_indices_up_to(positions, old_index, n).contains(i as usize),
    decreases n,
{
    if i == n - 1 {
        let prior = matching_indices_up_to(positions, old_index, n - 1);
        assert(prior.push((n - 1) as usize)[prior.len() as int] == (n - 1) as usize);
    } else {
        lemma_matching_indices_complete(positions, old_index, n - 1, i);
        let prior = matching_indices_up_to(positions, old_index, n - 1);
        let w = choose|w: int| 0 <= w < prior.len() && prior[w] == i as usize;
        if positions[n - 1] == old_index {
            assert(prior.push((n - 1) as usize)[w] == i as usize);
        }
    }
}

/// Reverse-lookup correctness: querying the location that new opcode `i`
/// originated from yields, among its results, opcode `i` itself.
pub proof fn lemma_reverse_lookup(positions: Seq<usize>, i: int)
    requires
        0 <= i < positions.len(),
    ensures
        new_locations_of(positions, OpcodeLocation::Acir(positions[i])).contains(
            OpcodeLocation::Acir(i as usize),
        ),
{
    let old_index = positions[i];
    let loc = OpcodeLocation::Acir(old_index);
    lemma_matching_indices_complete(positions, old_index, positions.len() as int, i);
    let matched = matching_indices_up_to(positions, old_index, positions.len() as int);
    let w = choose|w: int| 0 <= w < matched.len() && matched[w] == i as usize;
    assert(new_locations_of(positions, loc)[w] == OpcodeLocation::Acir(i as usize));
}

/// Every new index that the position map sends to a location's old index
/// yields a relocated descendant of that location: membership in the
/// reverse lookup is complete.
pub proof fn lemma_new_locations_complete(positions: Seq<usize>, loc: OpcodeLocation, j: int)
    requires
        0 <= j < positions.len(),
        positions[j] == acir_index_of(loc),
    ensures
        new_locations_of(positions, loc).contains(relocate(loc, j as usize)),
{
    lemma_matching_indices_complete(positions, acir_index_of(loc), positions.len() as int, j);
    let matched = matching_indices_up_to(positions, acir_index_of(loc), positions.len() as int);
    let w = choose|w: int| 0 <= w < matched.len() && matched[w] == j as usize;
    assert(new_locations_of(positions, loc)[w] == relocate(loc, j as usize));
}

/// The locations that descend from one location come in strictly ascending
/// order of their new top-level index.
pub proof fn lemma_new_locations_ascending(
    positions: Seq<usize>,
    loc: OpcodeLocation,
    k1: int,
    k2: int,
)
    requires
        positions.len() <= usize::MAX,
        0 <= k1 < k2 < new_locations_of(positions, loc).len(),
    ensures
        acir_index_of(new_locations_of(positions, loc)[k1]) < acir_index_of(
            new_locations_of(positions, loc)[k2],
        ),
{
    lemma_matching_indices_ascending(positions, acir_index_of(loc), positions.len() as int);
}

/// Embedded sub-index preservation: every location descending from a
/// sub-instruction location keeps the very same sub-instruction index; only
/// the hosting top-level index moves.
pub proof fn lemma_embedded_sub_index_preserved(
    positions: Seq<usize>,
    host: usize,
    sub: usize,
    k: int,
)
    requires
        0 <= k < new_locations_of(
            positions,
            (OpcodeLocation::Brillig { acir_index: host, brillig_index: sub }),
        ).len(),
    ensures
        (exists|j: usize|
            new_locations_of(
                positions,
                (OpcodeLocation::Brillig { acir_index: host, brillig_index: sub }),
            )[k] == (OpcodeLocation::Brillig { acir_index: j, brillig_index: sub })),
{
    let loc = OpcodeLocation::Brillig { acir_index: host, brillig_index: sub };
    let matched = matching_indices_up_to(positions, acir_index_of(loc), positions.len() as int);
    assert(new_locations_of(positions, loc)[k] == OpcodeLocation::Brillig {
        acir_index: matched[k],
        brillig_index: sub,
    });
}

/// Records how the positions of opcodes moved across the whole pipeline, and
/// answers the reverse query: which locations of the rewritten circuit
/// descend from a given location of the original one.
#[derive(Debug)]
pub struct AcirTransformationMap {
    /// For each opcode index of the rewritten circuit, the index of the
    /// opcode of the original circuit it originated from.
    acir_opcode_positions: Vec<usize>,
}

impl AcirTransformationMap {
    /// The position map itself: new index -> old index.
    pub closed spec fn view(&self) -> Seq<usize> {
        self.acir_opcode_positions@
    }

    /// Wraps a finished position map; the map is immutable afterwards.
    pub fn new(acir_opcode_positions: Vec<usize>) -> (map: Self)
        ensures
            map@ == acir_opcode_positions@,
    {
        AcirTransformationMap { acir_opcode_positions }
    }

    /// All locations of the rewritten circuit that descend from
    /// `old_location`, in ascending order of new index. The result is empty
    /// exactly when the opcode that `old_location` points at was eliminated.
    pub fn new_locations(&self, old_location: OpcodeLocation) -> (new_locations: Vec<
        OpcodeLocation,
    >)
        ensures
            new_locations@ == new_locations_of(self@, old_location),
    {
        let old_acir_index = match old_location {
            OpcodeLocation::Acir(index) => index,
            OpcodeLocation::Brillig { acir_index, brillig_index } => acir_index,
        };
        let mut result: Vec<OpcodeLocation> = Vec::new();
        let mut j: usize = 0;
        while j < self.acir_opcode_positions.len()
            invariant
                j <= self@.len(),
                old_acir_index == acir_index_of(old_location),
                result@ == matching_indices_up_to(self@, old_acir_index, j as int).map_values(
                    |k: usize| relocate(old_location, k),
                ),
            decreases self@.len() - j,
        {
            if self.acir_opcode_positions[j] == old_acir_index {
                let new_location = match old_location {
                    OpcodeLocation::Acir(index) => OpcodeLocation::Acir(j),
                    OpcodeLocation::Brillig { acir_index, brillig_index } => {
                        OpcodeLocation::Brillig { acir_index: j, brillig_index }
                    },
                };
                result.push(new_location);
                proof {
                    assert(result@ =~= matching_indices_up_to(
                        self@,
                        old_acir_index,
                        j + 1,
                    ).map_values(|k: usize| relocate(old_location, k)));
                }
            }
            j += 1;
        }
        result
    }
}

/// The location and the text of a debug annotation, with the text as a
/// sequence of characters.
pub open spec fn message_view(message: (OpcodeLocation, String)) -> (OpcodeLocation, Seq<char>) {
    (message.0, message.1@)
}

/// The fan-out block of one annotation: one copy of its text for every
/// location that descends from its location, in ascending order.
pub open spec fn relocated_for(
    positions: Seq<usize>,
    loc: OpcodeLocation,
    msg: Seq<char>,
) -> Seq<(OpcodeLocation, Seq<char>)> {
    new_locations_of(positions, loc).map_values(|l: OpcodeLocation| (l, msg))
}

/// The whole relocated annotation list: the fan-out blocks of the original
/// annotations, in the original order, flattened.
pub open spec fn relocated_messages(
    positions: Seq<usize>,
    messages: Seq<(OpcodeLocation, Seq<char>)>,
) -> Seq<(OpcodeLocation, Seq<char>)>
    decreases messages.len(),
{
    if messages.len() == 0 {
        Seq::empty()
    } else {
        relocated_for(positions, messages[0].0, messages[0].1) + relocated_messages(
            positions,
            messages.drop_first(),
        )
    }
}

/// Relocation distributes over splitting the annotation list.
pub proof fn lemma_relocated_messages_append(
    positions: Seq<usize>,
    before: Seq<(OpcodeLocation, Seq<char>)>,
    after: Seq<(OpcodeLocation, Seq<char>)>,
)
    ensures
        relocated_messages(positions, before + after) == relocated_messages(positions, before)
            + relocated_messages(positions, after),
    decreases before.len(),
{
    if before.len() == 0 {
        assert(before + after =~= after);
        assert(relocated_messages(positions, before) + relocated_messages(positions, after)
            =~= relocated_messages(positions, after));
    } else {
        assert((before + after).drop_first() =~= before.drop_first() + after);
        lemma_relocated_messages_append(positions, before.drop_first(), after);
        assert(relocated_for(positions, before[0].0, before[0].1) + (relocated_messages(
            positions,
            before.drop_first(),
        ) + relocated_messages(positions, after)) =~= (relocated_for(
            positions,
            before[0].0,
            before[0].1,
        ) + relocated_messages(positions, before.drop_first())) + relocated_messages(
            positions,
            after,
        ));
    }
}

/// Fan-out preserves message content: relocating one annotation produces
/// exactly one annotation per descending location, each carrying the very
/// same text and the corresponding location.
pub proof fn lemma_fan_out_preserves_content(
    positions: Seq<usize>,
    loc: OpcodeLocation,
    msg: Seq<char>,
)
    ensures
        relocated_for(positions, loc, msg).len() == new_locations_of(positions, loc).len(),
        forall|k: int|
            0 <= k < relocated_for(positions, loc, msg).len() ==> relocated_for(
                positions,
                loc,
                msg,
            )[k] == (new_locations_of(positions, loc)[k], msg),
        relocated_messages(positions, seq![(loc, msg)]) == relocated_for(positions, loc, msg),
{
    let single = seq![(loc, msg)];
    assert(single.len() == 1);
    assert(single[0] == (loc, msg));
    assert(single.drop_first() =~= Seq::<(OpcodeLocation, Seq<char>)>::empty());
    assert(relocated_messages(positions, single) == relocated_for(positions, loc, msg)
        + relocated_messages(positions, single.drop_first()));
    assert(relocated_for(positions, loc, msg) + Seq::<(OpcodeLocation, Seq<char>)>::empty()
        =~= relocated_for(positions, loc, msg));
}

/// Elimination drops silently: an annotation whose location has no
/// descendants contributes nothing, so striking it from the input list
/// leaves the relocated list as it is.
pub proof fn lemma_elimination_drops_silently(
    positions: Seq<usize>,
    messages: Seq<(OpcodeLocation, Seq<char>)>,
    k: int,
)
    requires
        0 <= k < messages.len(),
        new_locations_of(positions, messages[k].0).len() == 0,
    ensures
        relocated_messages(positions, messages) == relocated_messages(
            positions,
            messages.remove(k),
        ),
{
    let eliminated = seq![messages[k]];
    assert(messages =~= (messages.take(k) + eliminated) + messages.skip(k + 1));
    lemma_relocated_messages_append(positions, messages.take(k) + eliminated, messages.skip(k + 1));
    lemma_relocated_messages_append(positions, messages.take(k), eliminated);
    lemma_fan_out_preserves_content(positions, messages[k].0, messages[k].1);
    assert(relocated_for(positions, messages[k].0, messages[k].1)
        =~= Seq::<(OpcodeLocation, Seq<char>)>::empty());
    assert(messages.remove(k) =~= messages.take(k) + messages.skip(k + 1));
    lemma_relocated_messages_append(positions, messages.take(k), messages.skip(k + 1));
    assert(relocated_messages(positions, messages.take(k)) + Seq::<(
        OpcodeLocation,
        Seq<char>,
    )>::empty() =~= relocated_messages(positions, messages.take(k)));
}

/// Relocates every debug annotation through the transformation map: each
/// annotation is replaced, in place and in order, by one copy of itself for
/// every location that descends from its location; an annotation whose
/// opcode was eliminated is dropped.
pub fn transform_assert_messages(
    assert_messages: Vec<(OpcodeLocation, String)>,
    map: &AcirTransformationMap,
) -> (relocated: Vec<(OpcodeLocation, String)>)
    ensures
        relocated@.map_values(|m: (OpcodeLocation, String)| message_view(m)) == relocated_messages(
            map@,
            assert_messages@.map_values(|m: (OpcodeLocation, String)| message_view(m)),
        ),
{
    let ghost all_views = assert_messages@.map_values(
        |m: (OpcodeLocation, String)| message_view(m),
    );
    let mut relocated: Vec<(OpcodeLocation, String)> = Vec::new();
    let mut i: usize = 0;
    while i < assert_messages.len()
        invariant
            i <= assert_messages@.len(),
            all_views == assert_messages@.map_values(
                |m: (OpcodeLocation, String)| message_view(m),
            ),
            relocated@.map_values(|m: (OpcodeLocation, String)| message_view(m))
                == relocated_messages(map@, all_views.take(i as int)),
        decreases assert_messages@.len() - i,
    {
        let location = assert_messages[i].0;
        let message = &assert_messages[i].1;
        let new_locations = map.new_locations(location);
        let ghost block = relocated_for(map@, location, message@);
        let mut k: usize = 0;
        while k < new_locations.len()
            invariant
                k <= new_locations@.len(),
                new_locations@ == new_locations_of(map@, location),
                block == relocated_for(map@, location, message@),
                relocated@.map_values(|m: (OpcodeLocation, String)| message_view(m))
                    == relocated_messages(map@, all_views.take(i as int)) + block.take(k as int),
            decreases new_locations@.len() - k,
        {
            let cloned = message.clone();
            proof {
                assert(cloned@ == message@);
            }
            let ghost prior = relocated@;
            relocated.push((new_locations[k], cloned));
            proof {
                let done = relocated_messages(map@, all_views.take(i as int));
                assert(block.len() == new_locations@.len());
                assert(block[k as int] == (new_locations@[k as int], message@));
                assert(relocated@ == prior.push((new_locations@[k as int], cloned)));
                assert(prior.map_values(|m: (OpcodeLocation, String)| message_view(m)).len()
                    == prior.len());
                assert(prior.len() == done.len() + k);
                assert(message_view((new_locations@[k as int], cloned)) == block[k as int]);
                assert forall|j: int| 0 <= j < relocated@.len() implies relocated@.map_values(
                    |m: (OpcodeLocation, String)| message_view(m),
                )[j] == #[trigger] ((done + block.take(k as int + 1))[j]) by {
                    assert(relocated@.map_values(|m: (OpcodeLocation, String)| message_view(m))[j]
                        == message_view(relocated@[j]));
                    if j < prior.len() {
                        assert(message_view(prior[j]) == prior.map_values(
                            |m: (OpcodeLocation, String)| message_view(m),
                        )[j]);
                        assert(message_view(prior[j]) == (done + block.take(k as int))[j]);
                    }
                }
                assert(relocated@.map_values(|m: (OpcodeLocation, String)| message_view(m))
                    =~~= done + block.take(k as int + 1));
            }
            k += 1;
        }
        proof {
            let current = all_views[i as int];
            assert(block.take(new_locations@.len() as int) =~= block);
            assert(all_views.take(i as int + 1) =~= all_views.take(i as int) + seq![current]);
            lemma_relocated_messages_append(map@, all_views.take(i as int), seq![current]);
            lemma_fan_out_preserves_content(map@, location, message@);
            assert(all_views[i as int] == (location, message@));
        }
        i += 1;
    }
    proof {
        assert(all_views.take(assert_messages@.len() as int) =~= all_views);
    }
    relocated
}

/// Copies an annotation list entry by entry, so that the original circuit's
/// annotations survive the passes and can be relocated afterwards.
fn clone_messages(messages: &Vec<(OpcodeLocation, String)>) -> (cloned: Vec<(OpcodeLocation, String)>)
    ensures
        cloned@ == messages@,
{
    let mut cloned: Vec<(OpcodeLocation, String)> = Vec::new();
    let mut i: usize = 0;
    while i < messages.len()
        invariant
            i <= messages@.len(),
            cloned@ == messages@.take(i as int),
        decreases messages@.len() - i,
    {
        cloned.push((messages[i].0, messages[i].1.clone()));
        proof {
            assert(cloned@ =~= messages@.take(i as int + 1));
        }
        i += 1;
    }
    proof {
        assert(messages@.take(messages@.len() as int) =~= messages@);
    }
    cloned
}

/// The contract every rewrite pass owes: its position map has one entry per
/// opcode of its output circuit, and every entry is a valid index into its
/// input circuit.
pub open spec fn pass_output_consistent<T>(
    input: Circuit<T>,
    output: (Circuit<T>, Vec<usize>),
) -> bool {
    &&& output.1@.len() == output.0.opcodes@.len()
    &&& positions_valid(output.1@, input.opcodes@.len() as nat)
}

/// Runs the optimizer pass and then the width-transformer pass over a
/// circuit, in that fixed order, composes their two position maps into one
/// transformation map spanning the whole pipeline, and relocates the debug
/// annotations of the original circuit through it onto the rewritten
/// circuit. The passes are arbitrary as long as each honors
/// `pass_output_consistent`.
pub fn compile<T, F1, F2>(
    acir: Circuit<T>,
    expression_width: ExpressionWidth,
    optimize_pass: F1,
    transform_pass: F2,
) -> (res: (Circuit<T>, AcirTransformationMap)) where
    F1: FnOnce(Circuit<T>) -> (Circuit<T>, Vec<usize>),
    F2: FnOnce(Circuit<T>, ExpressionWidth) -> (Circuit<T>, Vec<usize>),

    requires
        call_requires(optimize_pass, (acir,)),
        forall|mid: (Circuit<T>, Vec<usize>)| #[trigger] call_ensures(optimize_pass, (acir,), mid)
            ==> pass_output_consistent(acir, mid) && call_requires(
            transform_pass,
            (mid.0, expression_width),
        ),
        forall|mid: (Circuit<T>, Vec<usize>), fin: (Circuit<T>, Vec<usize>)|
            #[trigger] call_ensures(optimize_pass, (acir,), mid) && #[trigger] call_ensures(
                transform_pass,
                (mid.0, expression_width),
                fin,
            ) ==> pass_output_consistent(mid.0, fin),
    ensures
        (exists|mid: (Circuit<T>, Vec<usize>), fin: (Circuit<T>, Vec<usize>)|
            {
                &&& #[trigger] call_ensures(optimize_pass, (acir,), mid)
                &&& #[trigger] call_ensures(transform_pass, (mid.0, expression_width), fin)
                &&& res.1@ == composed_positions(mid.1@, fin.1@)
                &&& res.0.opcodes@ == fin.0.opcodes@
            }),
        res.1@.len() == res.0.opcodes@.len(),
        positions_valid(res.1@, acir.opcodes@.len() as nat),
        res.0.assert_messages@.map_values(|m: (OpcodeLocation, String)| message_view(m))
            == relocated_messages(
            res.1@,
            acir.assert_messages@.map_values(|m: (OpcodeLocation, String)| message_view(m)),
        ),
{
    let original_messages = clone_messages(&acir.assert_messages);
    let ghost original = acir;
    let (mid_circuit, map1) = optimize_pass(acir);
    let ghost mid_snapshot = (mid_circuit, map1);
    let (final_circuit, map2) = transform_pass(mid_circuit, expression_width);
    let ghost fin_snapshot = (final_circuit, map2);
    let composed = compose_position_maps(&map1, &map2);
    let map = AcirTransformationMap::new(composed);
    let relocated = transform_assert_messages(original_messages, &map);
    let Circuit { opcodes, assert_messages: _ } = final_circuit;
    let rebuilt = Circuit { opcodes, assert_messages: relocated };
    proof {
        assert(call_ensures(optimize_pass, (original,), mid_snapshot));
        assert(call_ensures(transform_pass, (mid_snapshot.0, expression_width), fin_snapshot));
        assert(map@ == composed_positions(mid_snapshot.1@, fin_snapshot.1@));
        assert(rebuilt.opcodes@ == fin_snapshot.0.opcodes@);
    }
    (rebuilt, map)
}

} // verus!
