//! Properties of the exchange between client and server as a whole.

use vstd::prelude::*;
use vstd::utf8::*;
use crate::client::{accepts_sign_in, download_done_reply, min_u64};
use crate::connection::{decoded_message, framed, law_frame_round_trip};
use crate::server::{download_confirmation, ok_reply};
use crate::text::ascii_case_insensitive_eq;

verus! {

/// When the server has recorded a client it answers "OK"; once framed, sent and
/// decoded on the other side, that answer ends the client's sign-in.
pub proof fn law_recorded_client_stops_signing_in()
    ensures
        accepts_sign_in(decoded_message(framed(ok_reply()))),
{
    reveal_strlit("OK");
    law_frame_round_trip(ok_reply());
}

/// The answer that a client sends once its download is done, framed, sent and
/// decoded by the server, is taken by the server as the confirmation.
pub proof fn law_download_reply_confirms()
    ensures
        ascii_case_insensitive_eq(
            encode_utf8(decoded_message(framed(download_done_reply()))),
            encode_utf8(download_confirmation()),
        ),
{
    reveal_strlit("downloaded");
    law_frame_round_trip(download_done_reply());
}

/// The position after accounting for chunks of the given lengths, one by one,
/// from position `start` of a download of `total` bytes.
pub open spec fn position_after(start: int, total: int, chunks: Seq<int>) -> int
    decreases chunks.len(),
{
    if chunks.len() == 0 {
        start
    } else {
        min_u64(position_after(start, total, chunks.drop_last()) + chunks.last(), total)
    }
}

/// The sum of chunk lengths.
pub open spec fn sum(chunks: Seq<int>) -> int
    decreases chunks.len(),
{
    if chunks.len() == 0 {
        0
    } else {
        sum(chunks.drop_last()) + chunks.last()
    }
}

/// From a position within the total, the progress after any chunks is the
/// bytes received so far, capped at the total.
pub proof fn law_progress_is_capped_sum(start: int, total: int, chunks: Seq<int>)
    requires
        0 <= start <= total,
        forall|i: int| 0 <= i < chunks.len() ==> 0 <= #[trigger] chunks[i],
    ensures
        position_after(start, total, chunks) == min_u64(start + sum(chunks), total),
    decreases chunks.len(),
{
    if chunks.len() > 0 {
        let prefix = chunks.drop_last();
        assert forall|i: int| 0 <= i < prefix.len() implies 0 <= #[trigger] prefix[i] by {
            assert(prefix[i] == chunks[i]);
        }
        law_progress_is_capped_sum(start, total, prefix);
        assert(0 <= chunks[chunks.len() - 1]);
        assert(sum(prefix) >= 0) by {
            lemma_sum_nonneg(prefix);
        }
    }
}

proof fn lemma_sum_nonneg(chunks: Seq<int>)
    requires
        forall|i: int| 0 <= i < chunks.len() ==> 0 <= #[trigger] chunks[i],
    ensures
        sum(chunks) >= 0,
    decreases chunks.len(),
{
    if chunks.len() > 0 {
        let prefix = chunks.drop_last();
        assert forall|i: int| 0 <= i < prefix.len() implies 0 <= #[trigger] prefix[i] by {
            assert(prefix[i] == chunks[i]);
        }
        lemma_sum_nonneg(prefix);
        assert(0 <= chunks[chunks.len() - 1]);
    }
}

} // verus!
