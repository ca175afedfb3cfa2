//! How the bytes of an input are laid out in the sectors that a source hands
//! out.

use vstd::prelude::*;
use vstd::arithmetic::div_mod::{
    lemma_basic_div,
    lemma_div_multiples_vanish,
    lemma_div_plus_one,
    lemma_mod_add_multiples_vanish,
    lemma_mod_multiples_basic,
    lemma_small_mod,
};
use crate::sector::spec_piece;
use crate::source::{lemma_short_piece_ends_off_boundary, Production};

verus! {

/// The lengths of the filled sectors of an input of `total` bytes: as many
/// full sectors as fit, and then one short sector with the remainder, if
/// there is one.
pub open spec fn sectors_of(total: nat, sector_size: nat) -> Seq<nat> {
    let full = Seq::new(total / sector_size, |i: int| sector_size);
    if total % sector_size == 0 {
        full
    } else {
        full.push(total % sector_size)
    }
}

/// The lengths of all sectors of an input of `total` bytes, in the order in
/// which they are handed out: the filled sectors and then the empty sector
/// that closes the stream.
pub open spec fn stream_of(total: nat, sector_size: nat) -> Seq<nat> {
    sectors_of(total, sector_size).push(0)
}

/// The bytes that a batch read gathers from an input with `unread` bytes left
/// that delivers whatever is asked of it.
pub open spec fn batch_of(unread: nat, batch_size: usize) -> usize {
    if unread < batch_size {
        unread as usize
    } else {
        batch_size
    }
}

/// The lengths of the sectors handed out from `state` on by a source whose
/// input has `unread` bytes left, delivers whatever is asked of it and never
/// fails, for a consumer that gives each sector back.
pub open spec fn emissions(
    state: Production,
    unread: nat,
    sector_size: usize,
    batch_size: usize,
) -> Seq<nat>
    decreases unread, rank(state),
    when sector_size > 0 && batch_size > 0 && state.wf(sector_size, batch_size)
{
    match state {
        Production::Reading => emissions(
            Production::loaded(batch_of(unread, batch_size), false),
            (unread - batch_of(unread, batch_size)) as nat,
            sector_size,
            batch_size,
        ),
        Production::Slicing { filled, pos, failed } => seq![state.spec_piece_len(sector_size)]
            + emissions(state.advanced(sector_size, batch_size), unread, sector_size, batch_size),
        Production::Closing => seq![0nat],
        Production::Failing => Seq::empty(),
        Production::Stopped => Seq::empty(),
    }
}

/// How far a state is from handing out its last sector, the input left aside.
pub open spec fn rank(state: Production) -> nat {
    match state {
        Production::Reading => 1,
        Production::Slicing { filled, pos, failed } => (2 + filled - pos) as nat,
        Production::Closing => 0,
        Production::Failing => 0,
        Production::Stopped => 0,
    }
}

/// The lengths of the sectors cut one after the other from `total` bytes.
spec fn cuts(total: nat, sector_size: nat) -> Seq<nat>
    decreases total,
{
    if total == 0 || sector_size == 0 {
        Seq::empty()
    } else {
        seq![spec_piece(sector_size, total)] + cuts(
            (total - spec_piece(sector_size, total)) as nat,
            sector_size,
        )
    }
}

/// The states that a source passes through when its input delivers whatever
/// is asked of it and never fails: a short batch is the last one, and the
/// stream is closed only when the input is exhausted.
spec fn on_track(state: Production, unread: nat, sector_size: usize, batch_size: usize) -> bool {
    &&& state.wf(sector_size, batch_size)
    &&& match state {
        Production::Slicing { filled, pos, failed } => !failed && (filled < batch_size ==> unread
            == 0),
        Production::Closing => unread == 0,
        Production::Failing => false,
        _ => true,
    }
}

/// Cutting sector after sector gives the full sectors and then the remainder.
proof fn lemma_cuts_are_sectors(total: nat, sector_size: nat)
    requires
        sector_size > 0,
    ensures
        cuts(total, sector_size) == sectors_of(total, sector_size),
    decreases total,
{
    let d = sector_size as int;
    if total == 0 {
        lemma_basic_div(0, d);
        lemma_small_mod(0, sector_size);
        assert(sectors_of(total, sector_size) =~= Seq::<nat>::empty());
    } else if total < sector_size {
        lemma_basic_div(total as int, d);
        lemma_small_mod(total, sector_size);
        assert(cuts(0, sector_size) =~= Seq::<nat>::empty());
        assert(cuts(total, sector_size) =~= seq![total]);
        assert(sectors_of(total, sector_size) =~= seq![total]);
    } else {
        let rest = (total - sector_size) as nat;
        lemma_cuts_are_sectors(rest, sector_size);
        lemma_div_plus_one(rest as int, d);
        lemma_mod_add_multiples_vanish(rest as int, d);
        assert(d + rest == total);
        assert(cuts(total, sector_size) == seq![sector_size] + cuts(rest, sector_size));
        assert(seq![sector_size] + sectors_of(rest, sector_size) =~= sectors_of(
            total,
            sector_size,
        ));
    }
}

/// From a state on track, a source hands out what is left of its batch and
/// of its input, cut sector after sector, and then the empty sector.
proof fn lemma_emissions_are_cuts(
    state: Production,
    unread: nat,
    sector_size: usize,
    batch_size: usize,
)
    requires
        sector_size > 0,
        batch_size > 0,
        batch_size % sector_size == 0,
        on_track(state, unread, sector_size, batch_size),
        state != Production::Stopped,
    ensures
        emissions(state, unread, sector_size, batch_size) == cuts(
            state.spec_left() + unread,
            sector_size as nat,
        ).push(0),
    decreases unread, rank(state),
{
    let size = sector_size as nat;
    match state {
        Production::Reading => {
            let n = batch_of(unread, batch_size);
            let rest = (unread - n) as nat;
            let next = Production::loaded(n, false);
            if n == 0 {
                assert(cuts(0, size) =~= Seq::<nat>::empty());
                assert(emissions(next, rest, sector_size, batch_size) =~= seq![0nat]);
            } else {
                lemma_emissions_are_cuts(next, rest, sector_size, batch_size);
            }
        },
        Production::Slicing { filled, pos, failed } => {
            let left = (filled - pos) as nat;
            let piece = spec_piece(size, left);
            let total = left + unread;
            let next = state.advanced(sector_size, batch_size);
            state.lemma_advanced_wf(sector_size, batch_size);
            if filled == batch_size && left < size {
                lemma_short_piece_ends_off_boundary(pos as nat, filled as nat, size);
            }
            assert(spec_piece(size, total) == piece);
            assert(cuts(total, size) == seq![piece] + cuts((total - piece) as nat, size));
            if next == Production::Closing {
                assert(cuts(0, size) =~= Seq::<nat>::empty());
                assert(emissions(next, unread, sector_size, batch_size) =~= seq![0nat]);
            } else {
                lemma_emissions_are_cuts(next, unread, sector_size, batch_size);
            }
            assert(emissions(state, unread, sector_size, batch_size) =~= cuts(total, size).push(
                0,
            ));
        },
        Production::Closing => {
            assert(cuts(0, size) =~= Seq::<nat>::empty());
            assert(emissions(state, unread, sector_size, batch_size) =~= seq![0nat]);
        },
        Production::Failing => {},
        Production::Stopped => {},
    }
}

/// A source hands out the bytes of its input in order and in full sectors,
/// then what is left in one short sector, then one empty sector, and then
/// nothing more: whatever the length of the input, and however many batches
/// it takes.
pub proof fn lemma_stream_of_input(total: nat, sector_size: usize, batch_size: usize)
    requires
        sector_size > 0,
        batch_size > 0,
        batch_size % sector_size == 0,
    ensures
        emissions(Production::Reading, total, sector_size, batch_size) == stream_of(
            total,
            sector_size as nat,
        ),
{
    lemma_emissions_are_cuts(Production::Reading, total, sector_size, batch_size);
    lemma_cuts_are_sectors(total, sector_size as nat);
}

/// A source over an empty input hands out the closing empty sector at once,
/// and no filled sector.
pub proof fn lemma_empty_input(sector_size: usize, batch_size: usize)
    requires
        sector_size > 0,
        batch_size > 0,
        batch_size % sector_size == 0,
    ensures
        emissions(Production::Reading, 0, sector_size, batch_size) == seq![0nat],
{
    lemma_stream_of_input(0, sector_size, batch_size);
    lemma_basic_div(0, sector_size as int);
    lemma_small_mod(0, sector_size as nat);
    assert(stream_of(0, sector_size as nat) =~= seq![0nat]);
}

/// A source over an input of `count` whole sectors hands out `count` full
/// sectors and then the closing empty sector: for one sector, that sector and
/// the empty one.
pub proof fn lemma_input_of_whole_sectors(count: nat, sector_size: usize, batch_size: usize)
    requires
        sector_size > 0,
        batch_size > 0,
        batch_size % sector_size == 0,
    ensures
        emissions(
            Production::Reading,
            count * (sector_size as nat),
            sector_size,
            batch_size,
        ) == Seq::new(
            count,
            |i: int| sector_size as nat,
        ).push(0),
{
    let size = sector_size as nat;
    lemma_stream_of_input(count * size, sector_size, batch_size);
    lemma_div_multiples_vanish(count as int, size as int);
    lemma_mod_multiples_basic(count as int, size as int);
    assert(count * size == size * count) by (nonlinear_arith);
    assert(stream_of(count * size, size) =~= Seq::new(count, |i: int| size).push(0));
}

/// A source over an input that does not end on a sector boundary hands out
/// the full sectors, then a last filled sector with the bytes behind the last
/// boundary, and then the closing empty sector.
pub proof fn lemma_input_ends_short(total: nat, sector_size: usize, batch_size: usize)
    requires
        sector_size > 0,
        batch_size > 0,
        batch_size % sector_size == 0,
        total % (sector_size as nat) != 0,
    ensures
        ({
            let stream = emissions(Production::Reading, total, sector_size, batch_size);
            let full = total / (sector_size as nat);
            &&& stream.len() == full + 2
            &&& forall|i: int| 0 <= i < full ==> #[trigger] stream[i] == sector_size
            &&& stream[full as int] == total % (sector_size as nat)
            &&& stream[(full + 1) as int] == 0
        }),
{
    lemma_stream_of_input(total, sector_size, batch_size);
}

/// One thing that a source hands to its consumer: a sector of some length,
/// or the failure of its input.
pub enum Handed {
    /// A sector with this many valid bytes; an empty one closes the stream.
    Sector(nat),
    /// The failure of the input.
    Failure,
}

/// Sectors of the lengths `lens`, in their order.
pub open spec fn as_sectors(lens: Seq<nat>) -> Seq<Handed> {
    Seq::new(lens.len(), |i: int| Handed::Sector(lens[i]))
}

/// What is handed out from `state` on by a source whose input delivers
/// `unread` more bytes, whatever is asked of it, and fails on the read behind
/// them, for a consumer that gives each sector back.
pub open spec fn handed_until_failure(
    state: Production,
    unread: nat,
    sector_size: usize,
    batch_size: usize,
) -> Seq<Handed>
    decreases unread, rank(state),
    when sector_size > 0 && batch_size > 0 && state.wf(sector_size, batch_size)
{
    match state {
        Production::Reading => handed_until_failure(
            Production::loaded(batch_of(unread, batch_size), unread < batch_size),
            (unread - batch_of(unread, batch_size)) as nat,
            sector_size,
            batch_size,
        ),
        Production::Slicing { filled, pos, failed } => seq![
            Handed::Sector(state.spec_piece_len(sector_size)),
        ] + handed_until_failure(
            state.advanced(sector_size, batch_size),
            unread,
            sector_size,
            batch_size,
        ),
        Production::Closing => seq![Handed::Sector(0)],
        Production::Failing => seq![Handed::Failure],
        Production::Stopped => Seq::empty(),
    }
}

/// The states that a source passes through when its input fails behind the
/// bytes that are left: only the batch that met the failure is short, and the
/// stream is never closed.
spec fn on_failing_track(
    state: Production,
    unread: nat,
    sector_size: usize,
    batch_size: usize,
) -> bool {
    &&& state.wf(sector_size, batch_size)
    &&& match state {
        Production::Slicing { filled, pos, failed } => {
            &&& failed <==> filled < batch_size
            &&& failed ==> unread == 0
        },
        Production::Failing => unread == 0,
        Production::Closing => false,
        Production::Stopped => false,
        Production::Reading => true,
    }
}

/// From a state on the failing track, a source hands out what is left of its
/// batch and of the bytes in front of the failure, cut sector after sector,
/// and then the failure.
proof fn lemma_handed_are_cuts(
    state: Production,
    unread: nat,
    sector_size: usize,
    batch_size: usize,
)
    requires
        sector_size > 0,
        batch_size > 0,
        batch_size % sector_size == 0,
        on_failing_track(state, unread, sector_size, batch_size),
    ensures
        handed_until_failure(state, unread, sector_size, batch_size) == as_sectors(
            cuts(state.spec_left() + unread, sector_size as nat),
        ).push(Handed::Failure),
    decreases unread, rank(state),
{
    let size = sector_size as nat;
    match state {
        Production::Reading => {
            let n = batch_of(unread, batch_size);
            let rest = (unread - n) as nat;
            let next = Production::loaded(n, unread < batch_size);
            lemma_handed_are_cuts(next, rest, sector_size, batch_size);
        },
        Production::Slicing { filled, pos, failed } => {
            let left = (filled - pos) as nat;
            let piece = spec_piece(size, left);
            let total = left + unread;
            let next = state.advanced(sector_size, batch_size);
            state.lemma_advanced_wf(sector_size, batch_size);
            if filled == batch_size && left < size {
                lemma_short_piece_ends_off_boundary(pos as nat, filled as nat, size);
            }
            assert(spec_piece(size, total) == piece);
            let rest = cuts((total - piece) as nat, size);
            assert(cuts(total, size) == seq![piece] + rest);
            lemma_handed_are_cuts(next, unread, sector_size, batch_size);
            assert(as_sectors(seq![piece] + rest) =~= seq![Handed::Sector(piece)] + as_sectors(
                rest,
            ));
            assert(handed_until_failure(state, unread, sector_size, batch_size) =~= as_sectors(
                cuts(total, size),
            ).push(Handed::Failure));
        },
        Production::Failing => {
            assert(cuts(0, size) =~= Seq::<nat>::empty());
            assert(handed_until_failure(state, unread, sector_size, batch_size) =~= as_sectors(
                cuts(0, size),
            ).push(Handed::Failure));
        },
        Production::Closing => {},
        Production::Stopped => {},
    }
}

/// A source whose input fails behind `total` bytes hands out these bytes in
/// order and in full sectors, then what is left in one short sector, and then
/// the failure: once, in the place of the empty sector, which is never handed
/// out, wherever in a batch the failure is met.
pub proof fn lemma_stream_of_failing_input(total: nat, sector_size: usize, batch_size: usize)
    requires
        sector_size > 0,
        batch_size > 0,
        batch_size % sector_size == 0,
    ensures
        handed_until_failure(Production::Reading, total, sector_size, batch_size) == as_sectors(
            sectors_of(total, sector_size as nat),
        ).push(Handed::Failure),
{
    lemma_handed_are_cuts(Production::Reading, total, sector_size, batch_size);
    lemma_cuts_are_sectors(total, sector_size as nat);
}

} // verus!
