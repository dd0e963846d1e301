use nice_trader::hello;

#[test]
fn it_works() {
    assert_eq!(hello(), "Hello from common-utils!");
}
