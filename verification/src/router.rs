//! The routes of the API server.
use crate::api_client::{
    block_path, block_receipts_path, block_text, location_path, receipt_path, transaction_path,
    Method,
};
use crate::primitives::{views, BlockId, BlockNumberOrTag, B256};
use crate::text::{digits, join3};
use vstd::prelude::*;
use vstd::string::*;

verus! {

/// Who answers a request.
#[derive(Clone, Copy, Debug, PartialEq, Eq, Structural)]
pub enum Handler {
    Openapi,
    Ping,
    Metrics,
    GetAccount,
    GetTransaction,
    GetTransactionByLocation,
    GetTransactionReceipt,
    GetLogs,
    GetExecutionHint,
    GetChainId,
    GetBlock,
    GetBlockReceipts,
    SendRawTransaction,
}

/// A part of a route: a text as it stands, or one segment of the path under a name.
#[derive(Clone, Copy, Debug)]
pub enum Part {
    Text(&'static str),
    Param(&'static str),
}

/// A route: how a request for it is made, what its path looks like, and who answers it.
#[derive(Debug)]
pub struct Route {
    pub method: Method,
    pub parts: Vec<Part>,
    pub handler: Handler,
}

/// What a route says.
pub ghost struct RouteView {
    pub method: Method,
    pub parts: Seq<Part>,
    pub handler: Handler,
}

impl View for Route {
    type V = RouteView;

    open spec fn view(&self) -> RouteView {
        RouteView { method: self.method, parts: self.parts@, handler: self.handler }
    }
}

/// How the path of a handler's route looks.
pub open spec fn parts_of(handler: Handler) -> Seq<Part> {
    match handler {
        Handler::Openapi => seq![Part::Text("/openapi.yaml")],
        Handler::Ping => seq![Part::Text("/ping")],
        Handler::Metrics => seq![Part::Text("/metrics")],
        Handler::GetAccount => seq![
            Part::Text("/eth/v1/proof/account/"),
            Part::Param("address"),
        ],
        Handler::GetTransaction => seq![
            Part::Text("/eth/v1/proof/transaction/"),
            Part::Param("txHash"),
        ],
        Handler::GetTransactionByLocation => seq![
            Part::Text("/eth/v1/proof/transaction/"),
            Part::Param("blockId"),
            Part::Text("/"),
            Part::Param("index"),
        ],
        Handler::GetTransactionReceipt => seq![
            Part::Text("/eth/v1/proof/receipt/"),
            Part::Param("txHash"),
        ],
        Handler::GetLogs => seq![Part::Text("/eth/v1/proof/logs")],
        Handler::GetExecutionHint => seq![Part::Text("/eth/v1/proof/getExecutionHint")],
        Handler::GetChainId => seq![Part::Text("/eth/v1/chainId")],
        Handler::GetBlock => seq![Part::Text("/eth/v1/block/"), Part::Param("blockId")],
        Handler::GetBlockReceipts => seq![
            Part::Text("/eth/v1/block/"),
            Part::Param("blockId"),
            Part::Text("/receipts"),
        ],
        Handler::SendRawTransaction => seq![Part::Text("/eth/v1/sendRawTransaction")],
    }
}

/// The route of a handler: the two that take something in are posted to.
pub open spec fn route_of(handler: Handler) -> RouteView {
    RouteView {
        method: if handler == Handler::GetExecutionHint || handler == Handler::SendRawTransaction {
            Method::Post
        } else {
            Method::Get
        },
        parts: parts_of(handler),
        handler,
    }
}

/// The handlers in the order of their routes.
pub open spec fn handlers() -> Seq<Handler> {
    seq![
        Handler::Openapi,
        Handler::Ping,
        Handler::Metrics,
        Handler::GetAccount,
        Handler::GetTransaction,
        Handler::GetTransactionByLocation,
        Handler::GetTransactionReceipt,
        Handler::GetLogs,
        Handler::GetExecutionHint,
        Handler::GetChainId,
        Handler::GetBlock,
        Handler::GetBlockReceipts,
        Handler::SendRawTransaction,
    ]
}

fn parts(handler: Handler) -> (r: Vec<Part>)
    ensures
        r@ == parts_of(handler),
{
    let r: Vec<Part> = match handler {
        Handler::Openapi => vec![Part::Text("/openapi.yaml")],
        Handler::Ping => vec![Part::Text("/ping")],
        Handler::Metrics => vec![Part::Text("/metrics")],
        Handler::GetAccount => vec![
            Part::Text("/eth/v1/proof/account/"),
            Part::Param("address"),
        ],
        Handler::GetTransaction => vec![
            Part::Text("/eth/v1/proof/transaction/"),
            Part::Param("txHash"),
        ],
        Handler::GetTransactionByLocation => vec![
            Part::Text("/eth/v1/proof/transaction/"),
            Part::Param("blockId"),
            Part::Text("/"),
            Part::Param("index"),
        ],
        Handler::GetTransactionReceipt => vec![
            Part::Text("/eth/v1/proof/receipt/"),
            Part::Param("txHash"),
        ],
        Handler::GetLogs => vec![Part::Text("/eth/v1/proof/logs")],
        Handler::GetExecutionHint => vec![Part::Text("/eth/v1/proof/getExecutionHint")],
        Handler::GetChainId => vec![Part::Text("/eth/v1/chainId")],
        Handler::GetBlock => vec![Part::Text("/eth/v1/block/"), Part::Param("blockId")],
        Handler::GetBlockReceipts => vec![
            Part::Text("/eth/v1/block/"),
            Part::Param("blockId"),
            Part::Text("/receipts"),
        ],
        Handler::SendRawTransaction => vec![Part::Text("/eth/v1/sendRawTransaction")],
    };
    assert(r@ =~= parts_of(handler));
    r
}

fn route(handler: Handler) -> (r: Route)
    ensures
        r@ == route_of(handler),
{
    let method = if handler == Handler::GetExecutionHint || handler == Handler::SendRawTransaction {
        Method::Post
    } else {
        Method::Get
    };
    Route { method, parts: parts(handler), handler }
}

/// All routes of the server.
pub fn build_router() -> (r: Vec<Route>)
    ensures
        views(r@) == handlers().map_values(|h: Handler| route_of(h)),
{
    let r = vec![
        route(Handler::Openapi),
        route(Handler::Ping),
        route(Handler::Metrics),
        route(Handler::GetAccount),
        route(Handler::GetTransaction),
        route(Handler::GetTransactionByLocation),
        route(Handler::GetTransactionReceipt),
        route(Handler::GetLogs),
        route(Handler::GetExecutionHint),
        route(Handler::GetChainId),
        route(Handler::GetBlock),
        route(Handler::GetBlockReceipts),
        route(Handler::SendRawTransaction),
    ];
    assert(views(r@) =~= handlers().map_values(|h: Handler| route_of(h)));
    r
}

/// A route as a template: a segment under a name is its name in braces.
pub open spec fn template_of(parts: Seq<Part>) -> Seq<char>
    decreases parts.len(),
{
    if parts.len() == 0 {
        Seq::empty()
    } else {
        let before = template_of(parts.drop_last());
        match parts.last() {
            Part::Text(text) => before + text@,
            Part::Param(name) => before + ("{"@ + name@ + "}"@),
        }
    }
}

impl Route {
    /// The route as a template: a segment under a name is its name in braces.
    pub fn template(&self) -> (r: String)
        ensures
            r@ == template_of(self@.parts),
    {
        let mut r = String::new();
        let mut i: usize = 0;
        assert(self@.parts.take(0) =~= Seq::empty());
        while i < self.parts.len()
            invariant
                i <= self.parts@.len(),
                r@ == template_of(self@.parts.take(i as int)),
            decreases self.parts@.len() - i,
        {
            assert(self@.parts.take(i + 1).drop_last() =~= self@.parts.take(i as int));
            assert(self@.parts.take(i + 1).last() == self.parts@[i as int]);
            match self.parts[i] {
                Part::Text(text) => {
                    r.append(text);
                },
                Part::Param(name) => {
                    let param = join3("{", name, "}");
                    r.append(param.as_str());
                },
            }
            i = i + 1;
        }
        assert(self@.parts.take(i as int) =~= self@.parts);
        r
    }
}

/// What every request and every response passes, the innermost first.
#[derive(Clone, Copy, Debug, PartialEq, Eq, Structural)]
pub enum ServerLayer {
    /// Compresses bodies, as fast as it can.
    Compression,
    /// Measures the encoding of a body: outside the compression, which is where its cost is
    /// seen, and inside the caller's trace, which it belongs to.
    ResponseTiming,
    /// Takes up the caller's trace.
    TraceContext,
    /// Logs requests and responses.
    RequestLog,
}

/// The layers of the server, the innermost first.
pub fn server_layers() -> (r: Vec<ServerLayer>)
    ensures
        r@ == seq![
            ServerLayer::Compression,
            ServerLayer::ResponseTiming,
            ServerLayer::TraceContext,
            ServerLayer::RequestLog,
        ],
{
    let r = vec![
        ServerLayer::Compression,
        ServerLayer::ResponseTiming,
        ServerLayer::TraceContext,
        ServerLayer::RequestLog,
    ];
    assert(r@ =~= seq![
        ServerLayer::Compression,
        ServerLayer::ResponseTiming,
        ServerLayer::TraceContext,
        ServerLayer::RequestLog,
    ]);
    r
}

/// A segment of a path: some characters, none of which is a slash.
pub open spec fn is_segment(s: Seq<char>) -> bool {
    s.len() > 0 && forall|i: int| 0 <= i < s.len() ==> #[trigger] s[i] != '/'
}

/// A path fits a route: its texts stand there as they are, and each name has a segment.
pub open spec fn fits(parts: Seq<Part>, path: Seq<char>) -> bool
    decreases parts.len(),
{
    if parts.len() == 0 {
        path.len() == 0
    } else {
        match parts[0] {
            Part::Text(text) => {
                &&& text@.len() <= path.len()
                &&& path.take(text@.len() as int) == text@
                &&& fits(parts.drop_first(), path.skip(text@.len() as int))
            },
            Part::Param(_) => exists|n: int|
                0 < n <= path.len() && is_segment(#[trigger] path.take(n)) && fits(
                    parts.drop_first(),
                    path.skip(n),
                ),
        }
    }
}

proof fn lemma_text_fits(parts: Seq<Part>, text: &str, rest: Seq<char>)
    requires
        parts.len() > 0,
        parts[0] == Part::Text(text),
        fits(parts.drop_first(), rest),
    ensures
        fits(parts, text@ + rest),
{
    let path = text@ + rest;
    assert(path.take(text@.len() as int) =~= text@);
    assert(path.skip(text@.len() as int) =~= rest);
}

proof fn lemma_param_fits(parts: Seq<Part>, segment: Seq<char>, rest: Seq<char>)
    requires
        parts.len() > 0,
        parts[0] is Param,
        is_segment(segment),
        fits(parts.drop_first(), rest),
    ensures
        fits(parts, segment + rest),
{
    let path = segment + rest;
    assert(path.take(segment.len() as int) =~= segment);
    assert(path.skip(segment.len() as int) =~= rest);
}

/// A path of a text alone.
proof fn lemma_fits_text(parts: Seq<Part>, text: &str)
    requires
        parts.len() == 1,
        parts[0] == Part::Text(text),
    ensures
        fits(parts, text@),
{
    assert(fits(parts.drop_first(), Seq::empty()));
    lemma_text_fits(parts, text, Seq::empty());
    assert(text@ + Seq::<char>::empty() =~= text@);
}

/// A path of a text and a segment.
proof fn lemma_fits_param(parts: Seq<Part>, text: &str, segment: Seq<char>)
    requires
        parts.len() == 2,
        parts[0] == Part::Text(text),
        parts[1] is Param,
        is_segment(segment),
    ensures
        fits(parts, text@ + segment),
{
    let rest = parts.drop_first();
    assert(fits(rest.drop_first(), Seq::empty()));
    lemma_param_fits(rest, segment, Seq::empty());
    assert(segment + Seq::<char>::empty() =~= segment);
    lemma_text_fits(parts, text, segment);
}

pub proof fn lemma_digits_are_a_segment(n: nat, base: nat)
    ensures
        is_segment(digits(n, base)),
    decreases n,
{
    if base >= 2 && n >= base {
        assert(n / base < n) by (nonlinear_arith)
            requires
                n >= base,
                base >= 2,
        ;
        lemma_digits_are_a_segment(n / base, base);
    }
}

pub proof fn lemma_hash_is_a_segment(hash: B256)
    ensures
        is_segment(hash.text()),
{
}

pub proof fn lemma_block_is_a_segment(block_id: BlockId)
    ensures
        is_segment(block_text(block_id)),
{
    match block_id {
        BlockId::Hash(hash) => {
            lemma_hash_is_a_segment(hash.block_hash);
        },
        BlockId::Number(number) => {
            reveal_strlit("latest");
            reveal_strlit("finalized");
            reveal_strlit("safe");
            reveal_strlit("earliest");
            reveal_strlit("pending");
            reveal_strlit("0x");
            if let BlockNumberOrTag::Number(n) = number {
                lemma_digits_are_a_segment(n as nat, 16);
            }
        },
    }
}

/// Each request of the client, at a server whose base path is the root, has the route that is
/// meant for it. `address` is the text of an address.
pub proof fn law_requests_have_their_routes(
    address: Seq<char>,
    tx_hash: B256,
    block_id: BlockId,
    index: u64,
)
    requires
        is_segment(address),
    ensures
        fits(parts_of(Handler::GetAccount), "/"@ + ("eth/v1/proof/account/"@ + address)),
        fits(parts_of(Handler::GetTransactionReceipt), "/"@ + receipt_path(tx_hash)),
        fits(parts_of(Handler::GetTransaction), "/"@ + transaction_path(tx_hash)),
        fits(
            parts_of(Handler::GetTransactionByLocation),
            "/"@ + location_path(block_id, index),
        ),
        fits(parts_of(Handler::GetLogs), "/"@ + "eth/v1/proof/logs"@),
        fits(parts_of(Handler::GetExecutionHint), "/"@ + "eth/v1/proof/getExecutionHint"@),
        fits(parts_of(Handler::GetChainId), "/"@ + "eth/v1/chainId"@),
        fits(parts_of(Handler::GetBlock), "/"@ + block_path(block_id)),
        fits(parts_of(Handler::GetBlockReceipts), "/"@ + block_receipts_path(block_id)),
        fits(parts_of(Handler::SendRawTransaction), "/"@ + "eth/v1/sendRawTransaction"@),
{
    lemma_rooted();
    let block = block_text(block_id);
    let place = digits(index as nat, 10);
    lemma_hash_is_a_segment(tx_hash);
    lemma_block_is_a_segment(block_id);
    lemma_digits_are_a_segment(index as nat, 10);

    lemma_fits_param(parts_of(Handler::GetAccount), "/eth/v1/proof/account/", address);
    assert("/"@ + ("eth/v1/proof/account/"@ + address) =~= ("/"@ + "eth/v1/proof/account/"@)
        + address);

    let text = tx_hash.text();
    lemma_fits_param(parts_of(Handler::GetTransactionReceipt), "/eth/v1/proof/receipt/", text);
    assert("/"@ + receipt_path(tx_hash) =~= ("/"@ + "eth/v1/proof/receipt/"@) + text);

    lemma_fits_param(parts_of(Handler::GetTransaction), "/eth/v1/proof/transaction/", text);
    assert("/"@ + transaction_path(tx_hash) =~= ("/"@ + "eth/v1/proof/transaction/"@) + text);

    let location = parts_of(Handler::GetTransactionByLocation);
    let one = location.drop_first();
    let two = one.drop_first();
    let three = two.drop_first();
    assert(fits(three.drop_first(), Seq::empty()));
    lemma_param_fits(three, place, Seq::empty());
    assert(place + Seq::<char>::empty() =~= place);
    lemma_text_fits(two, "/", place);
    lemma_param_fits(one, block, "/"@ + place);
    lemma_text_fits(location, "/eth/v1/proof/transaction/", block + ("/"@ + place));
    assert("/"@ + location_path(block_id, index) =~= ("/"@ + "eth/v1/proof/transaction/"@) + (block
        + ("/"@ + place)));

    lemma_fits_text(parts_of(Handler::GetLogs), "/eth/v1/proof/logs");
    lemma_fits_text(parts_of(Handler::GetExecutionHint), "/eth/v1/proof/getExecutionHint");
    lemma_fits_text(parts_of(Handler::GetChainId), "/eth/v1/chainId");
    lemma_fits_text(parts_of(Handler::SendRawTransaction), "/eth/v1/sendRawTransaction");

    lemma_fits_param(parts_of(Handler::GetBlock), "/eth/v1/block/", block);
    assert("/"@ + block_path(block_id) =~= ("/"@ + "eth/v1/block/"@) + block);

    let receipts = parts_of(Handler::GetBlockReceipts);
    let rest = receipts.drop_first();
    lemma_fits_text(rest.drop_first(), "/receipts");
    lemma_param_fits(rest, block, "/receipts"@);
    lemma_text_fits(receipts, "/eth/v1/block/", block + "/receipts"@);
    assert("/"@ + block_receipts_path(block_id) =~= ("/"@ + "eth/v1/block/"@) + (block
        + "/receipts"@));
}

/// The paths of the client below the root.
pub proof fn lemma_rooted()
    ensures
        "/"@ + "eth/v1/proof/account/"@ == "/eth/v1/proof/account/"@,
        "/"@ + "eth/v1/proof/receipt/"@ == "/eth/v1/proof/receipt/"@,
        "/"@ + "eth/v1/proof/transaction/"@ == "/eth/v1/proof/transaction/"@,
        "/"@ + "eth/v1/proof/logs"@ == "/eth/v1/proof/logs"@,
        "/"@ + "eth/v1/proof/getExecutionHint"@ == "/eth/v1/proof/getExecutionHint"@,
        "/"@ + "eth/v1/chainId"@ == "/eth/v1/chainId"@,
        "/"@ + "eth/v1/block/"@ == "/eth/v1/block/"@,
        "/"@ + "eth/v1/sendRawTransaction"@ == "/eth/v1/sendRawTransaction"@,
{
    reveal_strlit("/");
    assert("/"@ + "eth/v1/proof/account/"@ =~= "/eth/v1/proof/account/"@) by {
        reveal_strlit("eth/v1/proof/account/");
        reveal_strlit("/eth/v1/proof/account/");
    }
    assert("/"@ + "eth/v1/proof/receipt/"@ =~= "/eth/v1/proof/receipt/"@) by {
        reveal_strlit("eth/v1/proof/receipt/");
        reveal_strlit("/eth/v1/proof/receipt/");
    }
    assert("/"@ + "eth/v1/proof/transaction/"@ =~= "/eth/v1/proof/transaction/"@) by {
        reveal_strlit("eth/v1/proof/transaction/");
        reveal_strlit("/eth/v1/proof/transaction/");
    }
    assert("/"@ + "eth/v1/proof/logs"@ =~= "/eth/v1/proof/logs"@) by {
        reveal_strlit("eth/v1/proof/logs");
        reveal_strlit("/eth/v1/proof/logs");
    }
    assert("/"@ + "eth/v1/proof/getExecutionHint"@ =~= "/eth/v1/proof/getExecutionHint"@) by {
        reveal_strlit("eth/v1/proof/getExecutionHint");
        reveal_strlit("/eth/v1/proof/getExecutionHint");
    }
    assert("/"@ + "eth/v1/chainId"@ =~= "/eth/v1/chainId"@) by {
        reveal_strlit("eth/v1/chainId");
        reveal_strlit("/eth/v1/chainId");
    }
    assert("/"@ + "eth/v1/block/"@ =~= "/eth/v1/block/"@) by {
        reveal_strlit("eth/v1/block/");
        reveal_strlit("/eth/v1/block/");
    }
    assert("/"@ + "eth/v1/sendRawTransaction"@ =~= "/eth/v1/sendRawTransaction"@) by {
        reveal_strlit("eth/v1/sendRawTransaction");
        reveal_strlit("/eth/v1/sendRawTransaction");
    }
}

/// Each route as a template, segment by segment, and how it is asked for: a call and a signed
/// transaction are posted, all else is got.
pub proof fn law_routes_have_their_templates()
    ensures
        template_of(parts_of(Handler::Openapi)) == "/openapi.yaml"@,
        template_of(parts_of(Handler::Ping)) == "/ping"@,
        template_of(parts_of(Handler::Metrics)) == "/metrics"@,
        template_of(parts_of(Handler::GetAccount)) == "/eth/v1/proof/account/"@ + "{"@
            + "address"@ + "}"@,
        template_of(parts_of(Handler::GetTransaction)) == "/eth/v1/proof/transaction/"@ + "{"@
            + "txHash"@ + "}"@,
        template_of(parts_of(Handler::GetTransactionByLocation)) == "/eth/v1/proof/transaction/"@
            + "{"@ + "blockId"@ + "}"@ + "/"@ + "{"@ + "index"@ + "}"@,
        template_of(parts_of(Handler::GetTransactionReceipt)) == "/eth/v1/proof/receipt/"@ + "{"@
            + "txHash"@ + "}"@,
        template_of(parts_of(Handler::GetLogs)) == "/eth/v1/proof/logs"@,
        template_of(parts_of(Handler::GetExecutionHint)) == "/eth/v1/proof/getExecutionHint"@,
        template_of(parts_of(Handler::GetChainId)) == "/eth/v1/chainId"@,
        template_of(parts_of(Handler::GetBlock)) == "/eth/v1/block/"@ + "{"@ + "blockId"@ + "}"@,
        template_of(parts_of(Handler::GetBlockReceipts)) == "/eth/v1/block/"@ + "{"@ + "blockId"@
            + "}"@ + "/receipts"@,
        template_of(parts_of(Handler::SendRawTransaction)) == "/eth/v1/sendRawTransaction"@,
        forall|h: Handler|
            {
                &&& (#[trigger] route_of(h)).handler == h
                &&& route_of(h).parts == parts_of(h)
                &&& route_of(h).method is Post <==> h is GetExecutionHint || h
                    is SendRawTransaction
                &&& handlers().contains(h)
            },
        handlers().len() == 13,
{
    lemma_template_of_text("/openapi.yaml");
    lemma_template_of_text("/ping");
    lemma_template_of_text("/metrics");
    lemma_template_of_text("/eth/v1/proof/logs");
    lemma_template_of_text("/eth/v1/proof/getExecutionHint");
    lemma_template_of_text("/eth/v1/chainId");
    lemma_template_of_text("/eth/v1/sendRawTransaction");
    lemma_template_of_param("/eth/v1/proof/account/", "address");
    lemma_template_of_param("/eth/v1/proof/transaction/", "txHash");
    lemma_template_of_param("/eth/v1/proof/transaction/", "blockId");
    lemma_template_of_param("/eth/v1/proof/receipt/", "txHash");
    lemma_template_of_param("/eth/v1/block/", "blockId");
    let location = parts_of(Handler::GetTransactionByLocation);
    assert(location.drop_last().drop_last() =~= seq![
        Part::Text("/eth/v1/proof/transaction/"),
        Part::Param("blockId"),
    ]);
    assert(template_of(location.drop_last()) == template_of(location.drop_last().drop_last())
        + "/"@);
    assert(template_of(location) =~= "/eth/v1/proof/transaction/"@ + "{"@ + "blockId"@ + "}"@
        + "/"@ + "{"@ + "index"@ + "}"@);
    let receipts = parts_of(Handler::GetBlockReceipts);
    assert(receipts.drop_last() =~= seq![Part::Text("/eth/v1/block/"), Part::Param("blockId")]);
    assert forall|h: Handler| handlers().contains(h) by {
        let at: int = match h {
            Handler::Openapi => 0,
            Handler::Ping => 1,
            Handler::Metrics => 2,
            Handler::GetAccount => 3,
            Handler::GetTransaction => 4,
            Handler::GetTransactionByLocation => 5,
            Handler::GetTransactionReceipt => 6,
            Handler::GetLogs => 7,
            Handler::GetExecutionHint => 8,
            Handler::GetChainId => 9,
            Handler::GetBlock => 10,
            Handler::GetBlockReceipts => 11,
            Handler::SendRawTransaction => 12,
        };
        assert(handlers()[at] == h);
    }
}

proof fn lemma_template_of_text(text: &'static str)
    ensures
        template_of(seq![Part::Text(text)]) == text@,
{
    assert(seq![Part::Text(text)].drop_last() =~= Seq::empty());
    assert(template_of(seq![Part::Text(text)].drop_last()) =~= Seq::empty());
    assert(template_of(seq![Part::Text(text)]) =~= text@);
}

proof fn lemma_template_of_param(text: &'static str, name: &'static str)
    ensures
        template_of(seq![Part::Text(text), Part::Param(name)]) == text@ + "{"@ + name@ + "}"@,
{
    lemma_template_of_text(text);
    let parts = seq![Part::Text(text), Part::Param(name)];
    assert(parts.drop_last() =~= seq![Part::Text(text)]);
    assert(template_of(parts) =~= text@ + "{"@ + name@ + "}"@);
}

} // verus!
