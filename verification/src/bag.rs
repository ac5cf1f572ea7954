//! The spawn set: the shape variants that enter the game, each with a
//! weight, and the draw of the next piece.

use vstd::prelude::*;
use vstd::seq_lib::lemma_multiset_commutative;
use rand::seq::SliceRandom;
use crate::piece::{height, is_shape, matrix, width, Piece};

verus! {

/// Number of shape variants in the spawn set.
pub const VARIANTS: usize = 19;

/// The matrix of variant `k`. The seven tetrominoes come in this order: the
/// bar (two variants), the tee (four), the square (one), the two skews (two
/// each) and the two ells (four each).
pub open spec fn spawn_shape(k: int) -> Seq<Seq<bool>> {
    if k == 0 {
        seq![seq![true, true, true, true]]
    } else if k == 1 {
        seq![seq![true], seq![true], seq![true], seq![true]]
    } else if k == 2 {
        seq![seq![false, true, false], seq![true, true, true]]
    } else if k == 3 {
        seq![seq![true, false], seq![true, true], seq![true, false]]
    } else if k == 4 {
        seq![seq![true, true, true], seq![false, true, false]]
    } else if k == 5 {
        seq![seq![false, true], seq![true, true], seq![false, true]]
    } else if k == 6 {
        seq![seq![true, true], seq![true, true]]
    } else if k == 7 {
        seq![seq![true, true, false], seq![false, true, true]]
    } else if k == 8 {
        seq![seq![false, true], seq![true, true], seq![true, false]]
    } else if k == 9 {
        seq![seq![false, true, true], seq![true, true, false]]
    } else if k == 10 {
        seq![seq![true, false], seq![true, true], seq![false, true]]
    } else if k == 11 {
        seq![seq![false, false, true], seq![true, true, true]]
    } else if k == 12 {
        seq![seq![true, false], seq![true, false], seq![true, true]]
    } else if k == 13 {
        seq![seq![true, true, true], seq![true, false, false]]
    } else if k == 14 {
        seq![seq![true, true], seq![false, true], seq![false, true]]
    } else if k == 15 {
        seq![seq![true, false, false], seq![true, true, true]]
    } else if k == 16 {
        seq![seq![true, true], seq![true, false], seq![true, false]]
    } else if k == 17 {
        seq![seq![true, true, true], seq![false, false, true]]
    } else {
        seq![seq![false, true], seq![false, true], seq![true, true]]
    }
}

/// The colour tag of variant `k`: one tag for each tetromino, 1 to 7.
pub open spec fn spawn_color(k: int) -> u8 {
    if k < 2 {
        1
    } else if k < 6 {
        2
    } else if k < 7 {
        3
    } else if k < 9 {
        4
    } else if k < 11 {
        5
    } else if k < 15 {
        6
    } else {
        7
    }
}

/// The weight of variant `k`: how many tickets it holds in the draw. The
/// variants of one tetromino hold four tickets between them.
pub open spec fn spawn_weight(k: int) -> nat {
    if k < 2 {
        2
    } else if k < 6 {
        1
    } else if k < 7 {
        4
    } else if k < 11 {
        2
    } else {
        1
    }
}

/// The tickets of the first `n` variants: each variant's number, as many
/// times as its weight, in the order of the variants.
pub open spec fn tickets(n: nat) -> Seq<usize>
    decreases n,
{
    if n == 0 {
        Seq::empty()
    } else {
        tickets((n - 1) as nat) + Seq::new(spawn_weight(n - 1), |t: int| (n - 1) as usize)
    }
}

/// The piece is variant `k` of the spawn set.
pub open spec fn is_variant(piece: Piece, k: int) -> bool {
    &&& 0 <= k < VARIANTS
    &&& piece.shape() == spawn_shape(k)
    &&& piece.tag() == spawn_color(k)
}

/// Every variant is a shape of at most four rows and four columns.
pub proof fn lemma_variants_are_shapes(k: int)
    requires
        0 <= k < VARIANTS,
    ensures
        is_shape(spawn_shape(k)),
        height(spawn_shape(k)) <= 4,
        width(spawn_shape(k)) <= 4,
{
    let m = spawn_shape(k);
    assert(m[0][0] || m[0][1] || m[0][2]);
}

/// The bag holds 28 tickets in all.
pub proof fn lemma_ticket_total()
    ensures
        tickets(VARIANTS as nat).len() == 28,
{
    reveal_with_fuel(tickets, 20);
}

/// Every ticket among those of the first `n` variants names one of them.
pub proof fn lemma_tickets_name_variants(n: nat, t: int)
    requires
        0 <= t < tickets(n).len(),
    ensures
        tickets(n)[t] < n,
    decreases n,
{
    if n > 0 {
        if t < tickets((n - 1) as nat).len() {
            lemma_tickets_name_variants((n - 1) as nat, t);
        }
    }
}

/// Among the tickets of the first `n` variants, variant `k` holds as many
/// as its weight says.
pub proof fn lemma_ticket_share(n: nat, k: int)
    requires
        0 <= k < n <= VARIANTS,
    ensures
        tickets(n).to_multiset().count(k as usize) == spawn_weight(k),
    decreases n,
{
    let last = Seq::new(spawn_weight(n - 1), |t: int| (n - 1) as usize);
    let before = tickets((n - 1) as nat);
    lemma_multiset_commutative(before, last);
    lemma_repeat_count(spawn_weight(n - 1), (n - 1) as usize, k as usize);
    if k < n - 1 {
        lemma_ticket_share((n - 1) as nat, k);
    } else {
        lemma_no_later_ticket((n - 1) as nat, k as usize);
    }
}

/// A sequence of `len` copies of `v` holds `v` exactly `len` times and
/// nothing else.
proof fn lemma_repeat_count(len: nat, v: usize, k: usize)
    ensures
        Seq::new(len, |t: int| v).to_multiset().count(k) == if k == v {
            len
        } else {
            0
        },
    decreases len,
{
    broadcast use vstd::seq_lib::group_to_multiset_ensures;

    let s = Seq::new(len, |t: int| v);
    if len == 0 {
        assert(s =~= Seq::<usize>::empty());
    } else {
        let shorter = Seq::new((len - 1) as nat, |t: int| v);
        lemma_repeat_count((len - 1) as nat, v, k);
        assert(s =~= shorter.push(v));
    }
}

/// The tickets of the first `n` variants hold none of variant `k >= n`.
proof fn lemma_no_later_ticket(n: nat, k: usize)
    requires
        n <= k,
    ensures
        tickets(n).to_multiset().count(k) == 0,
    decreases n,
{
    broadcast use vstd::seq_lib::group_to_multiset_ensures;

    if n == 0 {
    } else {
        let last = Seq::new(spawn_weight(n - 1), |t: int| (n - 1) as usize);
        lemma_multiset_commutative(tickets((n - 1) as nat), last);
        lemma_repeat_count(spawn_weight(n - 1), (n - 1) as usize, k);
        lemma_no_later_ticket((n - 1) as nat, k);
    }
}

/// How many tickets variant `k` holds.
pub fn weight_of(k: usize) -> (weight: usize)
    requires
        k < VARIANTS,
    ensures
        weight == spawn_weight(k as int),
{
    if k < 2 {
        2
    } else if k < 6 {
        1
    } else if k < 7 {
        4
    } else if k < 11 {
        2
    } else {
        1
    }
}

/// Variant `k` of the spawn set as a piece.
pub fn spawn_variant(k: usize) -> (piece: Piece)
    requires
        k < VARIANTS,
    ensures
        piece.wf(),
        is_variant(piece, k as int),
{
    let blocks = match k {
        0 => vec![vec![true, true, true, true]],
        1 => vec![vec![true], vec![true], vec![true], vec![true]],
        2 => vec![vec![false, true, false], vec![true, true, true]],
        3 => vec![vec![true, false], vec![true, true], vec![true, false]],
        4 => vec![vec![true, true, true], vec![false, true, false]],
        5 => vec![vec![false, true], vec![true, true], vec![false, true]],
        6 => vec![vec![true, true], vec![true, true]],
        7 => vec![vec![true, true, false], vec![false, true, true]],
        8 => vec![vec![false, true], vec![true, true], vec![true, false]],
        9 => vec![vec![false, true, true], vec![true, true, false]],
        10 => vec![vec![true, false], vec![true, true], vec![false, true]],
        11 => vec![vec![false, false, true], vec![true, true, true]],
        12 => vec![vec![true, false], vec![true, false], vec![true, true]],
        13 => vec![vec![true, true, true], vec![true, false, false]],
        14 => vec![vec![true, true], vec![false, true], vec![false, true]],
        15 => vec![vec![true, false, false], vec![true, true, true]],
        16 => vec![vec![true, true], vec![true, false], vec![true, false]],
        17 => vec![vec![true, true, true], vec![false, false, true]],
        _ => vec![vec![false, true], vec![false, true], vec![true, true]],
    };
    let color: u8 = if k < 2 {
        1
    } else if k < 6 {
        2
    } else if k < 7 {
        3
    } else if k < 9 {
        4
    } else if k < 11 {
        5
    } else if k < 15 {
        6
    } else {
        7
    };
    proof {
        assert(matrix(blocks@) =~~= spawn_shape(k as int));
        lemma_variants_are_shapes(k as int);
    }
    Piece::new(blocks, color)
}

/// The tickets of the draw: the number of each variant, as many times as
/// its weight.
pub fn spawn_bag() -> (bag: Vec<usize>)
    ensures
        bag@ == tickets(VARIANTS as nat),
{
    let mut bag: Vec<usize> = Vec::new();
    let mut k: usize = 0;
    while k < VARIANTS
        invariant
            k <= VARIANTS,
            bag@ == tickets(k as nat),
        decreases VARIANTS - k,
    {
        let weight = weight_of(k);
        let ghost before = bag@;
        let mut t: usize = 0;
        while t < weight
            invariant
                t <= weight,
                bag@ == before + Seq::new(t as nat, |i: int| k),
            decreases weight - t,
        {
            bag.push(k);
            t += 1;
            assert(bag@ =~= before + Seq::new(t as nat, |i: int| k));
        }
        k += 1;
        assert(bag@ =~= tickets(k as nat));
    }
    bag
}

/// `rand::rngs::ThreadRng`, the generator that `rand::thread_rng` hands out.
/// Nothing is known of what it holds.
#[verifier::external_type_specification]
#[verifier::external_body]
pub struct ExThreadRng(rand::rngs::ThreadRng);

/// `rand::thread_rng` returns the generator of the current thread, seeded by
/// the operating system. Nothing is claimed of the generator. It panics only
/// where the operating system can give no seed.
pub assume_specification[ rand::thread_rng ]() -> (rng: rand::rngs::ThreadRng);

/// `rand::seq::SliceRandom::choose` on a slice of ticket numbers: `None` for
/// an empty slice, else one of its elements, picked by the generator. Which
/// element comes is not said.
#[verifier::external_body]
fn choose_ticket(bag: &Vec<usize>, rng: &mut rand::rngs::ThreadRng) -> (ticket: Option<usize>)
    ensures
        bag@.len() == 0 ==> ticket is None,
        bag@.len() > 0 ==> ticket is Some && bag@.contains(ticket->0),
{
    bag.as_slice().choose(rng).copied()
}

/// Draws the next piece: one ticket is picked at random from the bag, and
/// the variant it names is built. Whatever ticket comes, the piece is one of
/// the variants of the spawn set.
pub fn random_piece() -> (piece: Piece)
    ensures
        piece.wf(),
        exists|k: int| is_variant(piece, k),
{
    let bag = spawn_bag();
    proof {
        lemma_ticket_total();
    }
    let mut rng = rand::thread_rng();
    let ticket = choose_ticket(&bag, &mut rng);
    let k = ticket.unwrap();
    proof {
        let t = choose|t: int| 0 <= t < bag@.len() && bag@[t] == k;
        lemma_tickets_name_variants(VARIANTS as nat, t);
    }
    let piece = spawn_variant(k);
    assert(is_variant(piece, k as int));
    piece
}

} // verus!
