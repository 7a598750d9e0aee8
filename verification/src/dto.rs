//! What the exchange answers, and what an answer holds.
use vstd::prelude::*;
use crate::candle::{from_raw_spec, Candle, CandleError, RawCandle};
use crate::stock::Side;

verus! {

/// The envelope of every answer: a code, zero for success, a message, and
/// the result.
#[derive(Debug)]
pub struct BasicResponse<T> {
    pub ret_code: i64,
    pub ret_msg: String,
    pub result: T,
}

/// A result that is a list.
#[derive(Debug)]
pub struct ListResponse<T> {
    pub list: Vec<T>,
}

/// A result that is one page of a list. `next_page_cursor` is empty on the
/// last page.
#[derive(Debug)]
pub struct PaginatedListResponse<T> {
    pub next_page_cursor: String,
    pub list: Vec<T>,
}

/// A result that holds nothing to read.
#[derive(Debug)]
pub struct AnyResponse {}

/// One account in the answer to a balance request. The balance is a
/// fixed-point value.
#[derive(Clone, Copy, Debug, PartialEq, Eq, Structural)]
pub struct Balance {
    pub total_margin_balance: i64,
}

/// An order that rests on the exchange. `price` and `qty` are fixed-point
/// values.
#[derive(Debug)]
pub struct Order {
    pub order_id: String,
    pub price: i64,
    pub qty: i64,
    pub side: Side,
}

pub type PlaceOrderData = BasicResponse<AnyResponse>;

pub type LiquidateData = BasicResponse<AnyResponse>;

pub type CancelOrderData = BasicResponse<AnyResponse>;

pub type CandlesData = BasicResponse<ListResponse<RawCandle>>;

pub type BalanceData = BasicResponse<ListResponse<Balance>>;

pub type OrdersData = BasicResponse<PaginatedListResponse<Order>>;

/// Why an answer of the exchange is of no use.
#[derive(Debug)]
pub enum StockError {
    /// The transport status is not a success.
    Status { status: u16 },
    /// The exchange refused the request; it said why.
    Refused { ret_code: i64, ret_msg: String },
    /// The answer to a balance request lists no account.
    EmptyBalance,
    /// A bar in the answer could not be read.
    BadCandle { field: CandleError },
    /// The request could not be signed.
    Signature,
}

impl Clone for Order {
    fn clone(&self) -> (r: Self)
        ensures
            r == *self,
    {
        Self {
            order_id: self.order_id.clone(),
            price: self.price,
            qty: self.qty,
            side: self.side,
        }
    }
}

/// The bars that a list of raw bars writes, or the error of the first raw
/// bar that cannot be read.
pub open spec fn read_all_spec(raws: Seq<RawCandle>) -> Result<Seq<Candle>, CandleError>
    decreases raws.len(),
{
    if raws.len() == 0 {
        Ok(Seq::empty())
    } else {
        match read_all_spec(raws.drop_last()) {
            Err(e) => Err(e),
            Ok(before) => match from_raw_spec(raws.last()) {
                Err(e) => Err(e),
                Ok(candle) => Ok(before.push(candle)),
            },
        }
    }
}

/// Whether a transport status is a success: it lies from 200 to 299.
pub fn handle_status(status: u16) -> (r: Result<(), StockError>)
    ensures
        r is Ok <==> 200 <= status < 300,
        r matches Err(e) ==> e == (StockError::Status { status }),
{
    if 200 <= status && status < 300 {
        Ok(())
    } else {
        Err(StockError::Status { status })
    }
}

/// The result of an answer whose code is zero; else the refusal, with the
/// code and the message of the answer.
pub fn check_and_extract_data<T>(parsed: BasicResponse<T>) -> (r: Result<T, StockError>)
    ensures
        parsed.ret_code == 0 ==> r == Ok::<T, StockError>(parsed.result),
        parsed.ret_code != 0 ==> r == Err::<T, StockError>(
            StockError::Refused { ret_code: parsed.ret_code, ret_msg: parsed.ret_msg },
        ),
{
    if parsed.ret_code == 0 {
        Ok(parsed.result)
    } else {
        Err(StockError::Refused { ret_code: parsed.ret_code, ret_msg: parsed.ret_msg })
    }
}

/// The balance in the answer to a balance request: the margin balance of
/// the first account listed.
pub fn extract_balance(parsed: BalanceData) -> (r: Result<i64, StockError>)
    ensures
        r == if parsed.ret_code != 0 {
            Err::<i64, StockError>(
                StockError::Refused { ret_code: parsed.ret_code, ret_msg: parsed.ret_msg },
            )
        } else if parsed.result.list@.len() == 0 {
            Err::<i64, StockError>(StockError::EmptyBalance)
        } else {
            Ok::<i64, StockError>(parsed.result.list@[0].total_margin_balance)
        },
{
    let data = check_and_extract_data(parsed)?;
    if data.list.len() == 0 {
        Err(StockError::EmptyBalance)
    } else {
        Ok(data.list[0].total_margin_balance)
    }
}

/// The bars in the answer to a bar request, in ascending order of
/// timestamp: the exchange lists the latest bar first, so they are read and
/// then reversed. Fails on the first raw bar that cannot be read.
pub fn extract_candles(parsed: CandlesData) -> (r: Result<Vec<Candle>, StockError>)
    ensures
        match r {
            Ok(candles) => parsed.ret_code == 0 && read_all_spec(parsed.result.list@) == Ok::<
                Seq<Candle>,
                CandleError,
            >(candles@.reverse()),
            Err(StockError::Refused { ret_code, ret_msg }) => parsed.ret_code != 0 && ret_code
                == parsed.ret_code && ret_msg == parsed.ret_msg,
            Err(StockError::BadCandle { field }) => parsed.ret_code == 0 && read_all_spec(
                parsed.result.list@,
            ) == Err::<Seq<Candle>, CandleError>(field),
            Err(_) => false,
        },
{
    let data = check_and_extract_data(parsed)?;
    let list = data.list;
    let ghost raws = list@;
    let mut read: Vec<Candle> = Vec::new();
    let mut i: usize = 0;
    proof {
        assert(raws.take(0) =~= Seq::<RawCandle>::empty());
    }
    while i < list.len()
        invariant
            i <= list.len(),
            list@ == raws,
            raws == parsed.result.list@,
            parsed.ret_code == 0,
            read_all_spec(raws.take(i as int)) == Ok::<Seq<Candle>, CandleError>(read@),
        decreases list.len() - i,
    {
        proof {
            assert(raws.take(i + 1).drop_last() =~= raws.take(i as int));
        }
        match Candle::read(&list[i]) {
            Ok(candle) => {
                read.push(candle);
            },
            Err(field) => {
                proof {
                    lemma_read_stays_failed(raws, i + 1);
                }
                return Err(StockError::BadCandle { field });
            },
        }
        i = i + 1;
    }
    proof {
        assert(raws.take(list.len() as int) =~= raws);
    }
    let mut candles: Vec<Candle> = Vec::new();
    let mut k: usize = read.len();
    while k > 0
        invariant
            k <= read.len(),
            candles@.len() == read.len() - k,
            forall|j: int| 0 <= j < candles.len() ==> candles@[j] == read@[read.len() - 1 - j],
        decreases k,
    {
        k = k - 1;
        candles.push(read[k]);
    }
    proof {
        assert(candles@.reverse() =~= read@);
    }
    Ok(candles)
}

/// Once a raw bar could not be read, reading more does not mend it.
proof fn lemma_read_stays_failed(raws: Seq<RawCandle>, upto: int)
    requires
        0 <= upto <= raws.len(),
        read_all_spec(raws.take(upto)) is Err,
    ensures
        read_all_spec(raws) == read_all_spec(raws.take(upto)),
    decreases raws.len() - upto,
{
    if upto < raws.len() {
        assert(raws.take(upto + 1).drop_last() =~= raws.take(upto));
        lemma_read_stays_failed(raws, upto + 1);
    } else {
        assert(raws.take(upto) =~= raws);
    }
}

/// The pages of the resting orders, as they come in.
#[derive(Debug)]
pub struct OrderPages {
    pub orders: Vec<Order>,
    pub cursor: String,
}

impl OrderPages {
    /// No page yet: no order, and an empty cursor for the first request.
    pub fn new() -> (r: OrderPages)
        ensures
            r.orders@.len() == 0,
            r.cursor@.len() == 0,
    {
        OrderPages { orders: Vec::new(), cursor: String::new() }
    }

    /// Takes one page: its orders are appended in their order, and its
    /// cursor is the cursor of the next request. Returns whether this was
    /// the last page, which it is when its cursor is empty. A refused
    /// answer changes nothing.
    pub fn accept(&mut self, page: OrdersData) -> (r: Result<bool, StockError>)
        ensures
            match r {
                Ok(done) => {
                    &&& page.ret_code == 0
                    &&& final(self).orders@ == old(self).orders@ + page.result.list@
                    &&& final(self).cursor == page.result.next_page_cursor
                    &&& done == (page.result.next_page_cursor@.len() == 0)
                },
                Err(e) => {
                    &&& page.ret_code != 0
                    &&& e == (StockError::Refused { ret_code: page.ret_code, ret_msg: page.ret_msg })
                    &&& *final(self) == *old(self)
                },
            },
    {
        let data = check_and_extract_data(page)?;
        let mut list = data.list;
        self.cursor = data.next_page_cursor;
        self.orders.append(&mut list);
        Ok(self.cursor.as_str().unicode_len() == 0)
    }
}

} // verus!
