//! What repeated pulls give: the tokens of a text in the order they come.

use vstd::prelude::*;
use crate::lexer::scan::{scan_end, scan_token, scannable};
use crate::lexer::token::TokenView;

verus! {

/// Where the lexer stands after `n` pulls that started at `pos`.
pub open spec fn position_after(text: Seq<char>, pos: int, n: nat) -> int
    decreases n,
{
    if n == 0 {
        pos
    } else {
        position_after(text, scan_end(text, pos), (n - 1) as nat)
    }
}

/// The token of pull number `n`, counted from zero, of the pulls that
/// started at `pos`.
pub open spec fn nth_token(text: Seq<char>, pos: int, n: nat) -> TokenView {
    scan_token(text, position_after(text, pos, n))
}

/// The tokens that up to `n` pulls from `pos` collect. Collecting stops
/// early at the end of the input, and before a pull that cannot be answered.
pub open spec fn taken(text: Seq<char>, pos: int, n: nat) -> Seq<TokenView>
    decreases n,
{
    if n == 0 || !scannable(text, pos) || scan_token(text, pos) is EOF {
        Seq::empty()
    } else {
        seq![scan_token(text, pos)] + taken(text, scan_end(text, pos), (n - 1) as nat)
    }
}

/// Where collecting up to `n` tokens from `pos` leaves the lexer: behind the
/// last token collected, behind the end mark if that was pulled, and at a
/// pull that cannot be answered.
pub open spec fn position_after_take(text: Seq<char>, pos: int, n: nat) -> int
    decreases n,
{
    if n == 0 || !scannable(text, pos) {
        pos
    } else if scan_token(text, pos) is EOF {
        scan_end(text, pos)
    } else {
        position_after_take(text, scan_end(text, pos), (n - 1) as nat)
    }
}

/// One pull more moves the cursor on from where the pulls before left it.
pub proof fn lemma_position_after_step(text: Seq<char>, pos: int, n: nat)
    ensures
        position_after(text, pos, n + 1) == scan_end(text, position_after(text, pos, n)),
    decreases n,
{
    reveal_with_fuel(position_after, 2);
    if n > 0 {
        lemma_position_after_step(text, scan_end(text, pos), (n - 1) as nat);
    }
}

/// Collecting hands out no more tokens than were asked for.
pub proof fn lemma_taken_len(text: Seq<char>, pos: int, n: nat)
    ensures
        taken(text, pos, n).len() <= n,
    decreases n,
{
    if n > 0 {
        lemma_taken_len(text, scan_end(text, pos), (n - 1) as nat);
    }
}

/// What collecting hands out is what single pulls hand out, in the same
/// order: entry `i` is the token of pull number `i`. Each of these pulls can
/// be answered, and none of them reports the end of the input.
pub proof fn lemma_taken_are_the_first_pulls(text: Seq<char>, pos: int, n: nat, i: int)
    requires
        0 <= i < taken(text, pos, n).len(),
    ensures
        taken(text, pos, n)[i] == nth_token(text, pos, i as nat),
        scannable(text, position_after(text, pos, i as nat)),
        !(nth_token(text, pos, i as nat) is EOF),
    decreases n,
{
    if i > 0 {
        lemma_taken_are_the_first_pulls(text, scan_end(text, pos), (n - 1) as nat, i - 1);
    }
}

} // verus!
