use hello_bridge::world::{HelloStruct, World};

#[test]
fn it_works() {
    let hello = HelloStruct::new();
    assert_eq!(hello.hello(World { size: 2 }), World { size: 3 });
}

#[test]
fn hello_grows_by_one() {
    let hello = HelloStruct::new();
    assert_eq!(hello.hello(World { size: 0 }), World { size: 1 });
    assert_eq!(
        hello.hello(World { size: usize::MAX - 1 }),
        World { size: usize::MAX }
    );
}
