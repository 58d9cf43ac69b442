// Integration tests: orders flow through the queue, the processor, and the
// books. Prices and quantities are tick counts; tests that need tenths of a
// unit (for values such as 99.9) scale every tick value in the test by 10.

use flow_rs::auction::Auction;
use flow_rs::order::{Order, OrderType, TradeType};
use flow_rs::order_book::Book;
use flow_rs::queue::Queue;
use flow_rs::queue_processing::QueueProcessor;

fn setup() {
    // setup code shared by this file's tests would go here
}

fn setup_bid_order() -> Order {
    Order::new(String::from("bid_id"), OrderType::Enter, TradeType::Bid, 100, 5)
}

fn setup_ask_order() -> Order {
    Order::new(String::from("ask_id"), OrderType::Enter, TradeType::Ask, 100, 5)
}

fn setup_bids_book() -> Book {
    Book::new(TradeType::Bid)
}

fn setup_asks_book() -> Book {
    Book::new(TradeType::Ask)
}

fn setup_queue() -> Queue {
    Queue::new()
}

fn each_order_type() -> Vec<Order> {
    let mut orders = Vec::<Order>::new();

    let b1 = setup_bid_order();
    orders.push(b1);
    let mut b2 = setup_bid_order();
    b2.order_type = OrderType::Update;
    orders.push(b2);
    let mut b3 = setup_bid_order();
    b3.order_type = OrderType::Cancel;
    orders.push(b3);
    orders
}

// 100 bids and 100 asks with distinct ids; prices 1..=100 in units of
// `scale` ticks, bid quantity 5 units, ask quantity 50 units.
fn setup_orders(scale: i64) -> (Vec<Order>, Vec<Order>) {
    let mut bids = Vec::<Order>::new();
    let mut asks = Vec::<Order>::new();
    for i in 1..101i64 {
        bids.push(Order::new(
            format!("b{}", i),
            OrderType::Enter,
            TradeType::Bid,
            i * scale,
            5 * scale,
        ));
        asks.push(Order::new(
            format!("a{}", i),
            OrderType::Enter,
            TradeType::Ask,
            i * scale,
            50 * scale,
        ));
    }
    (bids, asks)
}

// N bids at 1..=N quantity 5, and two asks: a marketable one at 0 and one
// at N * 1000 that will not transact, both of quantity 50.
fn setup_ask_cross_orders(num_bids: i64) -> (Vec<Order>, Vec<Order>) {
    let mut bids = Vec::<Order>::new();
    let mut asks = Vec::<Order>::new();
    for i in 1..num_bids + 1 {
        bids.push(Order::new(format!("b{}", i), OrderType::Enter, TradeType::Bid, i, 5));
    }
    asks.push(Order::new(String::from("ask_mkt"), OrderType::Enter, TradeType::Ask, 0, 50));
    asks.push(Order::new(
        String::from("ask_far"),
        OrderType::Enter,
        TradeType::Ask,
        num_bids * 1000,
        50,
    ));
    (bids, asks)
}

// N asks at 51..=50+N quantity 5, and two bids: a marketable one at
// N * 1000 and one at 0 that will not transact, both of quantity 50.
fn setup_bid_cross_orders(num_asks: i64) -> (Vec<Order>, Vec<Order>) {
    let mut bids = Vec::<Order>::new();
    let mut asks = Vec::<Order>::new();
    for i in 1..num_asks + 1 {
        asks.push(Order::new(format!("a{}", i), OrderType::Enter, TradeType::Ask, 50 + i, 5));
    }
    bids.push(Order::new(
        String::from("bid_mkt"),
        OrderType::Enter,
        TradeType::Bid,
        num_asks * 1000,
        50,
    ));
    bids.push(Order::new(String::from("bid_far"), OrderType::Enter, TradeType::Bid, 0, 50));
    (bids, asks)
}

fn enqueue_all(queue: &mut Queue, orders: Vec<Order>) {
    for order in orders {
        queue.push(order);
    }
}

fn drain(queue: &mut Queue, bids: &mut Book, asks: &mut Book) {
    let _ = QueueProcessor::conc_process_order_queue(queue, bids, asks);
}

#[test]
fn default_test() {
    setup();
    assert_eq!(1, 1);
}

#[test]
fn test_add_order_to_book() {
    let bid = setup_bid_order();

    let mut book = setup_bids_book();

    let _ = book.add_order(bid);

    assert_eq!(book.len(), 1);

    let _order = book.pop_from_end().unwrap();
}

#[test]
fn test_conc_queue_recv_order() {
    // Setup a queue
    let mut queue = setup_queue();

    let mut order = setup_bid_order();

    // Mutate order
    order.price = 199;

    // Admit the order to the queue
    queue.push(order);

    // Confirm the queue's order is correct
    let order = queue.pop().unwrap();

    assert_eq!(order.price, 199);
}

#[test]
fn test_queue_pop_all() {
    let mut queue = setup_queue();
    enqueue_all(&mut queue, each_order_type());
    let popped_off = queue.pop_all();
    assert_eq!(popped_off.len(), 3);
}

#[test]
fn test_ask_transaction() {
    // Setup queue and order books
    let mut queue = setup_queue();
    let mut bids_book = setup_bids_book();
    let mut asks_book = setup_asks_book();

    // Setup bids and asks
    let num_bids: i64 = 100;
    let (bids, asks) = setup_ask_cross_orders(num_bids);

    // Send all the bid orders
    enqueue_all(&mut queue, bids);

    // Process all of the bid orders in the queue
    drain(&mut queue, &mut bids_book, &mut asks_book);

    // There should be num_bids bids in the book, with max price num_bids
    // and quantity 5
    assert_eq!(bids_book.len(), num_bids as usize);
    let mut b_max_price = bids_book.get_max_price();
    assert_eq!(b_max_price, num_bids);

    // Send two asks orders
    enqueue_all(&mut queue, asks);

    // Process the new ask orders
    drain(&mut queue, &mut bids_book, &mut asks_book);

    // Only one ask should cross and fill, other will remain
    assert_eq!(asks_book.len(), 1);

    // The filled ask had 10x quantity as the bids so should have filled 10
    // bids
    assert_eq!(bids_book.len(), (num_bids - 10) as usize);
    b_max_price = bids_book.get_max_price();

    let a_min_price = asks_book.get_min_price();
    assert_eq!(b_max_price, num_bids - 10);

    // Min price set by remaining ask
    assert_eq!(a_min_price, num_bids * 1000);
}

#[test]
fn test_bid_transaction() {
    // Setup queue and order books
    let mut queue = setup_queue();
    let mut bids_book = setup_bids_book();
    let mut asks_book = setup_asks_book();

    // Setup bids and asks
    let num_asks: i64 = 100;
    let (bids, asks) = setup_bid_cross_orders(num_asks);

    // Send all the ask orders
    enqueue_all(&mut queue, asks);

    // Process all of the ask orders in the queue
    drain(&mut queue, &mut bids_book, &mut asks_book);

    // There should be num_asks asks in the book, with min price 51
    assert_eq!(asks_book.len(), num_asks as usize);
    let mut a_min_price = asks_book.get_min_price();
    assert_eq!(a_min_price, 51);

    // Send two bid orders
    enqueue_all(&mut queue, bids);

    // Process the new bid orders
    drain(&mut queue, &mut bids_book, &mut asks_book);

    // Only one bid should cross and fill, other will remain
    assert_eq!(bids_book.len(), 1);

    // The filled bid had 10x quantity as the asks so should have filled 10
    // asks
    assert_eq!(asks_book.len(), (num_asks - 10) as usize);
    a_min_price = asks_book.get_min_price();
    assert_eq!(a_min_price, 61);

    // Max price set by remaining bid
    let b_max_price = bids_book.get_max_price();
    assert_eq!(b_max_price, 0);
}

#[test]
fn test_update_bid() {
    let mut queue = setup_queue();
    let mut bids_book = setup_bids_book();
    let mut asks_book = setup_asks_book();

    // Setup bids; tick values are tenths of a unit in this test
    let (mut bids, _asks) = setup_orders(10);
    bids[0].trader_id = format!("jason");

    // Send all the orders
    enqueue_all(&mut queue, bids);

    // Process all of the orders in the queue
    drain(&mut queue, &mut bids_book, &mut asks_book);

    assert_eq!(bids_book.len(), 100);

    // Create a new order to update book: price 99.9, quantity 555.5
    let mut update_order = setup_bid_order();
    update_order.trader_id = format!("jason");
    update_order.order_type = OrderType::Update;
    update_order.price = 999;
    update_order.quantity = 5555;

    // Send new order to queue and process
    queue.push(update_order);
    drain(&mut queue, &mut bids_book, &mut asks_book);

    // Books should be same length
    assert_eq!(bids_book.len(), 100);

    // Find the order with id "jason"
    let index = bids_book.peek_id_pos(format!("jason"));

    // Unwrap the index and check order has been updated
    if let Some(i) = index {
        let order = &bids_book.orders[i];
        assert_eq!(order.trader_id, format!("jason"));
        assert_eq!(order.price, 999);
        assert_eq!(order.quantity, 5555);
        assert_eq!(order.order_type, OrderType::Update);
    } else {
        panic!("Update Order should exist");
    }
}

#[test]
fn test_update_ask() {
    let mut queue = setup_queue();
    let mut bids_book = setup_bids_book();
    let mut asks_book = setup_asks_book();

    // Setup asks; tick values are tenths of a unit in this test
    let (_bids, mut asks) = setup_orders(10);
    asks[0].trader_id = format!("jason");

    // Send all the asks
    enqueue_all(&mut queue, asks);

    // Process all of the orders in the queue
    drain(&mut queue, &mut bids_book, &mut asks_book);

    assert_eq!(asks_book.len(), 100);

    // Create a new order to update book: price 99.9, quantity 555.5
    let mut update_order = setup_ask_order();
    update_order.trader_id = format!("jason");
    update_order.order_type = OrderType::Update;
    update_order.price = 999;
    update_order.quantity = 5555;

    // Send new order to queue and process
    queue.push(update_order);
    drain(&mut queue, &mut bids_book, &mut asks_book);

    // Books should be same length
    assert_eq!(asks_book.len(), 100);

    // Find the order with id "jason"
    let index = asks_book.peek_id_pos(format!("jason"));

    // Unwrap the index and check order has been updated
    if let Some(i) = index {
        let order = &asks_book.orders[i];
        assert_eq!(order.trader_id, format!("jason"));
        assert_eq!(order.price, 999);
        assert_eq!(order.quantity, 5555);
        assert_eq!(order.order_type, OrderType::Update);
    } else {
        panic!("Update Order should exist");
    }
}

#[test]
fn test_cancel_bid() {
    let mut queue = setup_queue();
    let mut bids_book = setup_bids_book();
    let mut asks_book = setup_asks_book();

    // Setup bids; tick values are tenths of a unit in this test
    let (mut bids, _asks) = setup_orders(10);
    bids[0].trader_id = format!("jason");
    bids[0].price = 999999;
    bids[0].quantity = 10;

    // Send all the orders
    enqueue_all(&mut queue, bids);

    // Process all of the orders in the queue
    drain(&mut queue, &mut bids_book, &mut asks_book);

    assert_eq!(bids_book.len(), 100);

    // New max price will be equal to mutated order
    assert_eq!(bids_book.get_max_price(), 999999);

    // Create a new order to cancel the resting one
    let mut update_order = setup_bid_order();
    update_order.trader_id = format!("jason");
    update_order.price = 9999;
    update_order.order_type = OrderType::Cancel;
    update_order.quantity = -10;

    // Send new order to queue and process
    queue.push(update_order);
    drain(&mut queue, &mut bids_book, &mut asks_book);

    // Book should be shorter by 1
    assert_eq!(bids_book.len(), 99);

    // Find the order with id "jason"
    let index = bids_book.peek_id_pos(format!("jason"));

    if let Some(_) = index {
        panic!("Cancel Order should not exist anymore");
    }

    // The new max price will be updated to something lower once the order
    // has been cancelled
    assert_ne!(bids_book.get_max_price(), 999999);
    assert_eq!(bids_book.get_max_price(), 1000);
}

#[test]
fn test_cancel_ask() {
    let mut queue = setup_queue();
    let mut bids_book = setup_bids_book();
    let mut asks_book = setup_asks_book();

    // Setup asks; tick values are tenths of a unit in this test
    let (_bids, mut asks) = setup_orders(10);
    asks[0].trader_id = format!("jason");
    asks[0].price = 1;  // Set the best ask price
    asks[0].quantity = 100;

    // Send all the orders
    enqueue_all(&mut queue, asks);

    // Process all of the orders in the queue
    drain(&mut queue, &mut bids_book, &mut asks_book);

    assert_eq!(asks_book.len(), 100);

    // New min price will be equal to mutated order
    assert_eq!(asks_book.get_min_price(), 1);

    // Create a new order to cancel the resting one
    let mut update_order = setup_ask_order();
    update_order.trader_id = format!("jason");
    update_order.price = 999999;
    update_order.order_type = OrderType::Cancel;
    update_order.quantity = 10;

    // Send new order to queue and process
    queue.push(update_order);
    drain(&mut queue, &mut bids_book, &mut asks_book);

    // Books should be shorter by 1
    assert_eq!(asks_book.len(), 99);

    // Find the order with id "jason"
    let index = asks_book.peek_id_pos(format!("jason"));

    if let Some(_) = index {
        panic!("Cancel Order should not exist anymore");
    }

    // The new min price will be updated to something higher once the order
    // has been cancelled
    assert_ne!(asks_book.get_min_price(), 1);
    assert_eq!(asks_book.get_min_price(), 20);
}

#[test]
fn test_update_ask_to_cross() {
    // Setup queue and order books
    let mut queue = setup_queue();
    let mut bids_book = setup_bids_book();
    let mut asks_book = setup_asks_book();

    // Setup bids and asks
    let num_bids: i64 = 100;
    let (bids, mut asks) = setup_ask_cross_orders(num_bids);

    // Send all the bid orders
    enqueue_all(&mut queue, bids);

    // Process all of the bid orders in the queue
    drain(&mut queue, &mut bids_book, &mut asks_book);

    // There should be num_bids bids in the book, with max price num_bids
    assert_eq!(bids_book.len(), num_bids as usize);
    let mut b_max_price = bids_book.get_max_price();
    assert_eq!(b_max_price, num_bids);

    // Setup ask to be updated: modified from 0 to 99999 so it won't cross
    asks[0].trader_id = format!("jason");
    asks[0].price = 99999;
    asks[0].quantity = 50;

    // Send the two ask orders and process them
    enqueue_all(&mut queue, asks);
    drain(&mut queue, &mut bids_book, &mut asks_book);

    // No asks should have crossed
    assert_eq!(asks_book.len(), 2);

    // Update the order: price 0 will transact as a market order
    let mut update_order = setup_ask_order();
    update_order.trader_id = format!("jason");
    update_order.price = 0;
    update_order.order_type = OrderType::Update;
    update_order.quantity = 50;  // Should fill 10 bids

    // Send new order to queue and process
    queue.push(update_order);
    drain(&mut queue, &mut bids_book, &mut asks_book);

    // The filled ask had 10x quantity as the bids so should have filled 10
    // bids
    assert_eq!(bids_book.len(), (num_bids - 10) as usize);
    b_max_price = bids_book.get_max_price();

    let a_min_price = asks_book.get_min_price();
    assert_eq!(b_max_price, num_bids - 10);

    // Min price set by remaining ask
    assert_eq!(a_min_price, num_bids * 1000);
    assert_eq!(asks_book.len(), 1);
}

#[test]
fn test_update_bid_to_cross() {
    // Setup queue and order books
    let mut queue = setup_queue();
    let mut bids_book = setup_bids_book();
    let mut asks_book = setup_asks_book();

    // Setup bids and asks
    let num_asks: i64 = 100;
    let (mut bids, asks) = setup_bid_cross_orders(num_asks);

    // Send all the ask orders
    enqueue_all(&mut queue, asks);

    // Process all of the ask orders in the queue
    drain(&mut queue, &mut bids_book, &mut asks_book);

    // There should be num_asks asks in the book, with min price 51
    assert_eq!(asks_book.len(), num_asks as usize);
    let a_min_price = asks_book.get_min_price();
    assert_eq!(a_min_price, 51);

    // Setup bid to be updated: modified to 0 so it won't cross
    bids[0].trader_id = format!("jason");
    bids[0].price = 0;
    bids[0].quantity = 50;

    // Send the two bid orders and process them
    enqueue_all(&mut queue, bids);
    drain(&mut queue, &mut bids_book, &mut asks_book);

    // No bids should have crossed
    assert_eq!(bids_book.len(), 2);

    // Update the order: a very high price will transact as a market order
    let mut update_order = setup_bid_order();
    update_order.trader_id = format!("jason");
    update_order.price = 999999;
    update_order.order_type = OrderType::Update;
    update_order.quantity = 50;  // Should fill 10 asks

    // Send new order to queue and process
    queue.push(update_order);
    drain(&mut queue, &mut bids_book, &mut asks_book);

    // The filled bid had 10x quantity as the asks so should have filled 10
    // asks
    assert_eq!(asks_book.len(), (num_asks - 10) as usize);
    let b_max_price = bids_book.get_max_price();

    // Max price set by remaining bid
    assert_eq!(b_max_price, 0);
    assert_eq!(bids_book.len(), 1);
}

#[test]
fn test_min_max_float() {
    let a: i64 = 2;
    let b: i64 = 10;
    assert_eq!(2, Auction::min_val(&a, &b));
    assert_eq!(10, Auction::max_val(&a, &b));
}

#[test]
fn test_float_helpers() {
    let a: i64 = 2;
    let b: i64 = 10;
    assert_eq!(2, Auction::min_val(&a, &b));
    assert_eq!(10, Auction::max_val(&a, &b));

    assert!(!Auction::greater_than_e(&a, &b));
    assert!(Auction::less_than_e(&a, &b));
    // In tenths of a unit: 1.1 + 0.4 equals 1.5 within the tolerance
    assert!(Auction::equal_e(&(11 + 4), &15));
}

#[test]
fn test_new_order() {
    let order = Order::new(String::from("trader_id"), OrderType::Enter, TradeType::Bid, 50, 500);

    assert_eq!(order.trader_id, "trader_id");
    assert_eq!(order.order_type, OrderType::Enter);
    assert_eq!(order.trade_type, TradeType::Bid);
    assert_eq!(order.price, 50);
    assert_eq!(order.quantity, 500);
}
