use kool::parsing::multi_peek::MultiPeekable;

fn setup() -> MultiPeekable<u32> {
    MultiPeekable::new(vec![10, 20, 30, 40, 50])
}

#[test]
fn peek_and_next() {
    let mut nums = setup();

    assert_eq!(nums.peek(), Some(&10));
    assert_eq!(nums.next(), Some(10));
}

#[test]
fn multi_peek() {
    let nums = setup();

    assert_eq!(nums.multi_peek(3), &[10, 20, 30]);
    assert_eq!(nums.multi_peek(6), &[10, 20, 30, 40, 50]);
}

#[test]
fn multi_peek_and_nexts() {
    let mut nums = setup();

    assert_eq!(nums.multi_peek(2), &[10, 20]);
    assert_eq!(nums.next(), Some(10));
    assert_eq!(nums.next(), Some(20));
    assert_eq!(nums.next(), Some(30));
    assert_eq!(nums.peek(), Some(&40));
    assert_eq!(nums.peek(), Some(&40));
    assert_eq!(nums.next(), Some(40));
    assert_eq!(nums.next(), Some(50));
    assert_eq!(nums.peek(), None);
    let empty: &[u32] = &[];
    assert_eq!(nums.multi_peek(2), empty);
}

#[test]
fn multi_peek_of_nothing() {
    let nums: MultiPeekable<u32> = MultiPeekable::new(Vec::new());
    assert_eq!(nums.multi_peek(0).len(), 0);
    assert_eq!(nums.peek(), None);
}

#[test]
fn interleaved_calls_give_the_items_in_order() {
    let mut nums = setup();
    let mut given = Vec::new();
    assert_eq!(nums.peek(), Some(&10));
    given.push(nums.next().unwrap());
    assert_eq!(nums.multi_peek(2), &[20, 30]);
    assert_eq!(nums.peek(), Some(&20));
    given.push(nums.next().unwrap());
    given.push(nums.next().unwrap());
    assert_eq!(nums.multi_peek(9), &[40, 50]);
    given.push(nums.next().unwrap());
    given.push(nums.next().unwrap());
    assert_eq!(nums.next(), None);
    assert_eq!(nums.peek(), None);
    assert_eq!(given, vec![10, 20, 30, 40, 50]);
}
