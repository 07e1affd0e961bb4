//! Under which label of the metrics each path is counted.
use crate::api_client::{
    block_path, block_receipts_path, block_text, location_path, receipt_path, transaction_path,
};
use crate::metrics::label_of;
use crate::primitives::{BlockId, BlockNumberOrTag, B256};
use crate::router::{
    is_segment, lemma_block_is_a_segment, lemma_digits_are_a_segment, lemma_hash_is_a_segment,
    lemma_rooted,
};
use crate::text::{contains, digits, ends_with, stands_at};
use vstd::prelude::*;

verus! {

/// A text without a slash.
pub open spec fn no_slash(s: Seq<char>) -> bool {
    forall|i: int| 0 <= i < s.len() ==> #[trigger] s[i] != '/'
}

proof fn lemma_stands(path: Seq<char>, part: Seq<char>, at: int, k: int)
    requires
        stands_at(path, part, at),
        0 <= k < part.len(),
    ensures
        path[at + k] == part[k],
{
    assert(path.subrange(at, at + part.len())[k] == path[at + k]);
}

/// A part that begins with a slash is not in a path where, after each slash, one of three
/// characters is another.
proof fn lemma_not_in(path: Seq<char>, part: Seq<char>, i: int, j: int, k: int)
    requires
        0 < i < part.len(),
        0 < j < part.len(),
        0 < k < part.len(),
        part[0] == '/',
        forall|at: int|
            0 <= at && at + part.len() <= path.len() && #[trigger] path[at] == '/' ==> path[at + i]
                != part[i] || path[at + j] != part[j] || path[at + k] != part[k],
    ensures
        !contains(path, part),
        !ends_with(path, part),
{
    if exists|at: int| stands_at(path, part, at) {
        let at = choose|at: int| stands_at(path, part, at);
        lemma_stands(path, part, at, 0);
        lemma_stands(path, part, at, i);
        lemma_stands(path, part, at, j);
        lemma_stands(path, part, at, k);
        assert(path[at] == '/');
    }
    assert(!stands_at(path, part, path.len() - part.len()));
}

/// Only a path whose last segment says so is that of a hint.
proof fn lemma_no_hint(base: Seq<char>, last: Seq<char>)
    requires
        base.len() > 0,
        base.last() == '/',
        no_slash(last),
        last != "getExecutionHint"@,
    ensures
        !ends_with(base + last, "/getExecutionHint"@),
{
    let path = base + last;
    let hint = "/getExecutionHint"@;
    reveal_strlit("/getExecutionHint");
    reveal_strlit("getExecutionHint");
    if ends_with(path, hint) {
        let at = path.len() - 17;
        lemma_stands(path, hint, at, 0);
        assert(path[base.len() - 1] == '/');
        if at >= base.len() {
            assert(path[at] == last[at - base.len()]);
        } else if at < base.len() - 1 {
            lemma_stands(path, hint, at, base.len() - 1 - at);
        } else {
            assert forall|i: int| 0 <= i < 16 implies last[i] == "getExecutionHint"@[i] by {
                lemma_stands(path, hint, at, i + 1);
                assert(path[at + i + 1] == last[i]);
            }
            assert(last =~= "getExecutionHint"@);
        }
    }
}

/// Every path of an account is counted as one, whatever it names as the account but the name of
/// a hint.
pub proof fn law_account_paths_have_one_label(x: Seq<char>)
    requires
        no_slash(x),
        x != "getExecutionHint"@,
    ensures
        label_of("/eth/v1/proof/account/"@ + x) == "proof/account",
{
    let path = "/eth/v1/proof/account/"@ + x;
    reveal_strlit("/proof/account/");
    reveal_strlit("/eth/v1/proof/account/");
    assert(path.subrange(7, 22) =~= "/proof/account/"@);
    assert(stands_at(path, "/proof/account/"@, 7));
    lemma_no_hint("/eth/v1/proof/account/"@, x);
}

/// Every path of a receipt is counted as one, whatever it names as the transaction but the name
/// of a hint.
pub proof fn law_receipt_paths_have_one_label(x: Seq<char>)
    requires
        no_slash(x),
        x != "getExecutionHint"@,
    ensures
        label_of("/eth/v1/proof/receipt/"@ + x) == "proof/receipt",
{
    let path = "/eth/v1/proof/receipt/"@ + x;
    reveal_strlit("/proof/account/");
    reveal_strlit("/proof/receipt/");
    reveal_strlit("/eth/v1/proof/receipt/");
    assert(path.subrange(7, 22) =~= "/proof/receipt/"@);
    assert(stands_at(path, "/proof/receipt/"@, 7));
    assert forall|at: int| 22 <= at < path.len() implies #[trigger] path[at] != '/' by {
        assert(path[at] == x[at - 22]);
    }
    lemma_no_hint("/eth/v1/proof/receipt/"@, x);
    lemma_not_in(path, "/proof/account/"@, 1, 6, 7);
}

/// What follows the path of transactions has at most one slash.
proof fn lemma_transaction_label(rest: Seq<char>, slash: int)
    requires
        forall|i: int| 0 <= i < rest.len() && i != slash ==> #[trigger] rest[i] != '/',
        !ends_with("/eth/v1/proof/transaction/"@ + rest, "/getExecutionHint"@),
    ensures
        label_of("/eth/v1/proof/transaction/"@ + rest) == "proof/transaction",
{
    let path = "/eth/v1/proof/transaction/"@ + rest;
    reveal_strlit("/proof/account/");
    reveal_strlit("/proof/receipt/");
    reveal_strlit("/proof/transaction/");
    reveal_strlit("/eth/v1/proof/transaction/");
    assert(path.subrange(7, 26) =~= "/proof/transaction/"@);
    assert(stands_at(path, "/proof/transaction/"@, 7));
    assert forall|at: int| 26 <= at < path.len() && at != 26 + slash implies #[trigger] path[at]
        != '/' by {
        assert(path[at] == rest[at - 26]);
    }
    lemma_not_in(path, "/proof/account/"@, 6, 7, 14);
    lemma_not_in(path, "/proof/receipt/"@, 6, 7, 14);
}

/// Every path of a transaction is counted as one, by its hash or by its place, whatever they
/// are but the name of a hint.
pub proof fn law_transaction_paths_have_one_label(x: Seq<char>, y: Seq<char>)
    requires
        no_slash(x),
        no_slash(y),
        y != "getExecutionHint"@,
    ensures
        x != "getExecutionHint"@ ==> label_of("/eth/v1/proof/transaction/"@ + x)
            == "proof/transaction",
        label_of("/eth/v1/proof/transaction/"@ + (x + "/"@ + y)) == "proof/transaction",
{
    let base = "/eth/v1/proof/transaction/"@;
    reveal_strlit("/");
    reveal_strlit("/eth/v1/proof/transaction/");
    if x != "getExecutionHint"@ {
        lemma_no_hint(base, x);
        lemma_transaction_label(x, -1);
    }
    let rest = x + "/"@ + y;
    assert forall|i: int| 0 <= i < rest.len() && i != x.len() implies #[trigger] rest[i] != '/' by {
        if i < x.len() {
            assert(rest[i] == x[i]);
        } else {
            assert(rest[i] == y[i - x.len() - 1]);
        }
    }
    let longer = base + x + "/"@;
    assert(longer.last() == '/');
    lemma_no_hint(longer, y);
    assert(longer + y =~= base + rest);
    lemma_transaction_label(rest, x.len() as int);
}

/// Every path of a block or of its receipts is counted as one, whatever it names as the block
/// but the name of a hint.
pub proof fn law_block_paths_have_one_label(x: Seq<char>)
    requires
        no_slash(x),
    ensures
        x != "getExecutionHint"@ ==> label_of("/eth/v1/block/"@ + x) == "block",
        label_of("/eth/v1/block/"@ + x + "/receipts"@) == "block",
{
    reveal_strlit("/proof/account/");
    reveal_strlit("/proof/receipt/");
    reveal_strlit("/proof/transaction/");
    reveal_strlit("/proof/logs");
    reveal_strlit("/block/");
    reveal_strlit("/eth/v1/block/");
    if x != "getExecutionHint"@ {
        let path = "/eth/v1/block/"@ + x;
        assert(path.subrange(7, 14) =~= "/block/"@);
        assert(stands_at(path, "/block/"@, 7));
        assert forall|at: int| 14 <= at < path.len() implies #[trigger] path[at] != '/' by {
            assert(path[at] == x[at - 14]);
        }
        lemma_no_hint("/eth/v1/block/"@, x);
        lemma_not_in(path, "/proof/account/"@, 1, 6, 7);
        lemma_not_in(path, "/proof/receipt/"@, 1, 6, 7);
        lemma_not_in(path, "/proof/transaction/"@, 1, 6, 7);
        lemma_not_in(path, "/proof/logs"@, 1, 6, 7);
    }
    let path = "/eth/v1/block/"@ + x + "/receipts"@;
    let slash = 14 + x.len() as int;
    reveal_strlit("/receipts");
    reveal_strlit("receipts");
    reveal_strlit("getExecutionHint");
    assert(path.subrange(7, 14) =~= "/block/"@);
    assert(stands_at(path, "/block/"@, 7));
    assert forall|at: int| 14 <= at < slash implies #[trigger] path[at] != '/' by {
        assert(path[at] == x[at - 14]);
    }
    assert forall|at: int| slash <= at < path.len() implies #[trigger] path[at]
        == "/receipts"@[at - slash] by {}
    assert(path.len() == slash + 9);
    assert(path[slash + 1] == 'r');
    assert(path[slash + 8] == 's');
    let longer = "/eth/v1/block/"@ + x + seq!['/'];
    assert(longer.last() == '/');
    lemma_no_hint(longer, "receipts"@);
    assert(longer + "receipts"@ =~= path);
    lemma_not_in(path, "/proof/account/"@, 1, 6, 7);
    lemma_not_in(path, "/proof/receipt/"@, 1, 6, 14);
    lemma_not_in(path, "/proof/transaction/"@, 1, 6, 7);
    lemma_not_in(path, "/proof/logs"@, 1, 6, 7);
}

proof fn lemma_texts_are_no_hint(address: Seq<char>, tx_hash: B256, block_id: BlockId, index: u64)
    requires
        is_segment(address),
        address.len() == 42,
    ensures
        no_slash(address) && address != "getExecutionHint"@,
        no_slash(tx_hash.text()) && tx_hash.text() != "getExecutionHint"@,
        no_slash(block_text(block_id)) && block_text(block_id) != "getExecutionHint"@,
        no_slash(digits(index as nat, 10)) && digits(index as nat, 10) != "getExecutionHint"@,
{
    reveal_strlit("getExecutionHint");
    lemma_hash_is_a_segment(tx_hash);
    lemma_block_is_a_segment(block_id);
    lemma_digits_are_a_segment(index as nat, 10);
    reveal_strlit("latest");
    reveal_strlit("finalized");
    reveal_strlit("safe");
    reveal_strlit("earliest");
    reveal_strlit("pending");
    reveal_strlit("0x");
    if let BlockId::Number(BlockNumberOrTag::Number(n)) = block_id {
        assert(block_text(block_id)[0] == "0x"@[0]);
    }
    assert(digits(index as nat, 10).last() != 't');
}

/// Each request of the client, at a server whose base path is the root, is counted as what it
/// is. `address` is the text of an address.
pub proof fn law_client_requests_have_their_labels(
    address: Seq<char>,
    tx_hash: B256,
    block_id: BlockId,
    index: u64,
)
    requires
        is_segment(address),
        address.len() == 42,
    ensures
        label_of("/"@ + ("eth/v1/proof/account/"@ + address)) == "proof/account",
        label_of("/"@ + receipt_path(tx_hash)) == "proof/receipt",
        label_of("/"@ + transaction_path(tx_hash)) == "proof/transaction",
        label_of("/"@ + location_path(block_id, index)) == "proof/transaction",
        label_of("/"@ + block_path(block_id)) == "block",
        label_of("/"@ + block_receipts_path(block_id)) == "block",
{
    lemma_rooted();
    lemma_texts_are_no_hint(address, tx_hash, block_id, index);
    let hash = tx_hash.text();
    let block = block_text(block_id);
    let place = digits(index as nat, 10);
    law_account_paths_have_one_label(address);
    law_receipt_paths_have_one_label(hash);
    law_transaction_paths_have_one_label(hash, place);
    law_transaction_paths_have_one_label(block, place);
    law_block_paths_have_one_label(block);
    assert("/"@ + ("eth/v1/proof/account/"@ + address) =~= "/eth/v1/proof/account/"@ + address);
    assert("/"@ + receipt_path(tx_hash) =~= "/eth/v1/proof/receipt/"@ + hash);
    assert("/"@ + transaction_path(tx_hash) =~= "/eth/v1/proof/transaction/"@ + hash);
    assert("/"@ + location_path(block_id, index) =~= "/eth/v1/proof/transaction/"@ + (block + "/"@
        + place));
    assert("/"@ + block_path(block_id) =~= "/eth/v1/block/"@ + block);
    assert("/"@ + block_receipts_path(block_id) =~= "/eth/v1/block/"@ + block + "/receipts"@);
}

/// The requests without an argument in their path have labels of their own.
pub proof fn law_other_requests_have_their_labels()
    ensures
        label_of("/"@ + "eth/v1/proof/logs"@) == "proof/logs",
        label_of("/"@ + "eth/v1/proof/getExecutionHint"@) == "getExecutionHint",
        label_of("/"@ + "eth/v1/chainId"@) == "chainId",
        label_of("/"@ + "eth/v1/sendRawTransaction"@) == "sendRawTransaction",
{
    lemma_rooted();
    reveal_strlit("/getExecutionHint");
    reveal_strlit("/proof/account/");
    reveal_strlit("/proof/receipt/");
    reveal_strlit("/proof/transaction/");
    reveal_strlit("/proof/logs");
    reveal_strlit("/block/");
    reveal_strlit("/chainId");
    reveal_strlit("/sendRawTransaction");
    assert(label_of("/eth/v1/proof/logs"@) == "proof/logs") by {
        let path = "/eth/v1/proof/logs"@;
        reveal_strlit("/eth/v1/proof/logs");
        assert(path.subrange(7, 18) =~= "/proof/logs"@);
        assert(stands_at(path, "/proof/logs"@, 7));
        lemma_not_in(path, "/getExecutionHint"@, 1, 2, 2);
        lemma_not_in(path, "/proof/account/"@, 1, 2, 7);
        lemma_not_in(path, "/proof/receipt/"@, 1, 2, 7);
        lemma_not_in(path, "/proof/transaction/"@, 1, 2, 7);
    }
    assert(label_of("/eth/v1/proof/getExecutionHint"@) == "getExecutionHint") by {
        let path = "/eth/v1/proof/getExecutionHint"@;
        reveal_strlit("/eth/v1/proof/getExecutionHint");
        assert(path.subrange(13, 30) =~= "/getExecutionHint"@);
        assert(ends_with(path, "/getExecutionHint"@));
    }
    assert(label_of("/eth/v1/chainId"@) == "chainId") by {
        let path = "/eth/v1/chainId"@;
        reveal_strlit("/eth/v1/chainId");
        assert(path.subrange(7, 15) =~= "/chainId"@);
        assert(ends_with(path, "/chainId"@));
        lemma_not_in(path, "/getExecutionHint"@, 1, 2, 2);
        lemma_not_in(path, "/proof/account/"@, 1, 2, 2);
        lemma_not_in(path, "/proof/receipt/"@, 1, 2, 2);
        lemma_not_in(path, "/proof/transaction/"@, 1, 2, 2);
        lemma_not_in(path, "/proof/logs"@, 1, 2, 2);
        lemma_not_in(path, "/block/"@, 1, 2, 2);
    }
    assert(label_of("/eth/v1/sendRawTransaction"@) == "sendRawTransaction") by {
        let path = "/eth/v1/sendRawTransaction"@;
        reveal_strlit("/eth/v1/sendRawTransaction");
        assert(path.subrange(7, 26) =~= "/sendRawTransaction"@);
        assert(ends_with(path, "/sendRawTransaction"@));
        lemma_not_in(path, "/getExecutionHint"@, 1, 2, 2);
        lemma_not_in(path, "/proof/account/"@, 1, 2, 2);
        lemma_not_in(path, "/proof/receipt/"@, 1, 2, 2);
        lemma_not_in(path, "/proof/transaction/"@, 1, 2, 2);
        lemma_not_in(path, "/proof/logs"@, 1, 2, 2);
        lemma_not_in(path, "/block/"@, 1, 2, 2);
        lemma_not_in(path, "/chainId"@, 1, 2, 2);
    }
}

} // verus!
