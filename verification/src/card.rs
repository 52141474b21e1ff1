//! Card generation: an unbiased random draw of 25 labels from the pool.
use vstd::prelude::*;
use rand::Rng;
use vstd::multiset::group_multiset_axioms;

verus! {

/// How many cells a card has.
pub const NUMBER_OF_CELLS: usize = 25;

/// The text shown in one cell of the card.
#[derive(Clone, Debug)]
pub struct BingoCell {
    pub string: String,
}

/// Everything that can keep the game from starting or running.
#[derive(Clone, Copy, Debug, PartialEq, Eq, Structural)]
pub enum BingoError {
    /// The data source could not be read.
    DataUnavailable,
    /// The data source could not be parsed into a list of labels.
    MalformedData,
    /// Fewer labels than a card has cells.
    InsufficientData,
    /// Raw mode or screen setup failed.
    TerminalInitFailure,
    /// The key-event source failed.
    InputSourceFailure,
}

/// Relies on rand's `thread_rng().gen_range(0..n)`: a uniformly random value
/// strictly below `n`. It panics only on an empty range, which the
/// precondition rules out.
#[verifier::external_body]
fn random_below(n: usize) -> (r: usize)
    requires
        n > 0,
    ensures
        r < n,
{
    rand::thread_rng().gen_range(0..n)
}

/// Draw a card: 25 labels picked at random, without replacement, from the
/// pool, so the card never holds more copies of a label than the pool does.
/// The order of the result matters, since it fixes each label's grid
/// position. A pool with fewer labels than cells is rejected untouched.
pub fn generate_card(all_data: Vec<BingoCell>) -> (r: Result<Vec<BingoCell>, BingoError>)
    ensures
        match r {
            Ok(card) => all_data@.len() >= 25 && card@.len() == 25
                && card@.to_multiset().subset_of(all_data@.to_multiset()),
            Err(e) => e == BingoError::InsufficientData && all_data@.len() < 25,
        },
{
    if all_data.len() < NUMBER_OF_CELLS {
        return Err(BingoError::InsufficientData);
    }
    let ghost orig = all_data@;
    let mut remaining = all_data;
    let mut game_set: Vec<BingoCell> = Vec::new();
    proof {
        broadcast use group_multiset_axioms;

        vstd::seq_lib::to_multiset_len(game_set@);
        vstd::multiset::lemma_multiset_empty_len(game_set@.to_multiset());
        assert(game_set@.to_multiset().add(remaining@.to_multiset()) =~= orig.to_multiset());
    }
    let mut i: usize = 0;
    while i < NUMBER_OF_CELLS
        invariant
            i <= 25,
            game_set@.len() == i,
            remaining@.len() == orig.len() - i,
            orig.len() >= 25,
            game_set@.to_multiset().add(remaining@.to_multiset()) == orig.to_multiset(),
        decreases 25 - i,
    {
        let index = random_below(remaining.len());
        let ghost rem_before = remaining@;
        let ghost set_before = game_set@;
        let cell = remaining.remove(index);
        game_set.push(cell);
        proof {
            broadcast use group_multiset_axioms;

            vstd::seq_lib::to_multiset_remove(rem_before, index as int);
            vstd::seq_lib::to_multiset_build(set_before, cell);
            vstd::seq_lib::to_multiset_contains(rem_before, cell);
            assert(rem_before.contains(rem_before[index as int]));
            assert(rem_before.to_multiset().count(cell) >= 1);
            assert forall|b: BingoCell|
                game_set@.to_multiset().count(b) + remaining@.to_multiset().count(b)
                    == orig.to_multiset().count(b) by {
                assert(game_set@.to_multiset().count(b) == set_before.to_multiset().count(b) + (
                if b == cell {
                    1int
                } else {
                    0int
                }));
                assert(remaining@.to_multiset().count(b) == rem_before.to_multiset().count(b) - (
                if b == cell {
                    1int
                } else {
                    0int
                }));
            };
            assert(game_set@.to_multiset().add(remaining@.to_multiset()) =~= orig.to_multiset());
        }
        i = i + 1;
    }
    proof {
        broadcast use group_multiset_axioms;

        assert forall|c: BingoCell|
            game_set@.to_multiset().count(c) <= orig.to_multiset().count(c) by {
            assert(game_set@.to_multiset().add(remaining@.to_multiset()).count(c)
                == orig.to_multiset().count(c));
        };
    }
    Ok(game_set)
}

/// Law: a card drawn without replacement holds only labels of its pool:
/// a sub-multiset contains nothing but elements of the larger multiset.
pub proof fn lemma_card_labels_from_pool(card: Seq<BingoCell>, pool: Seq<BingoCell>)
    requires
        card.to_multiset().subset_of(pool.to_multiset()),
    ensures
        forall|i: int| 0 <= i < card.len() ==> pool.contains(#[trigger] card[i]),
{
    broadcast use group_multiset_axioms;

    assert forall|i: int| 0 <= i < card.len() implies pool.contains(card[i]) by {
        vstd::seq_lib::to_multiset_contains(card, card[i]);
        vstd::seq_lib::to_multiset_contains(pool, card[i]);
        assert(card.contains(card[i]));
    };
}

} // verus!
