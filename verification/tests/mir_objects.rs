use device_driver::mir::{
    Buffer, Cfg, Object, ObjectOverride, RefObject, RegisterOverride, Repeat,
};

#[test]
fn object_address_and_repeat() {
    let buffer = Object::Buffer(Buffer {
        cfg_attr: Cfg::new(None),
        description: "A buffer".to_string(),
        name: "Fifo".to_string(),
        access: Default::default(),
        address: 12,
    });
    assert_eq!(buffer.address(), Some(12));
    assert_eq!(buffer.repeat(), None);
    assert_eq!(buffer.description(), "A buffer");

    let plain_ref = Object::Ref(RefObject {
        cfg_attr: Cfg::new(None),
        description: String::new(),
        name: "Other".to_string(),
        object_override: ObjectOverride::Register(RegisterOverride {
            name: "Target".to_string(),
            ..Default::default()
        }),
    });
    assert_eq!(plain_ref.address(), None);

    let moved_ref = Object::Ref(RefObject {
        cfg_attr: Cfg::new(None),
        description: String::new(),
        name: "Other".to_string(),
        object_override: ObjectOverride::Register(RegisterOverride {
            name: "Target".to_string(),
            address: Some(-3),
            repeat: Some(Repeat { count: 2, stride: 1 }),
            ..Default::default()
        }),
    });
    assert_eq!(moved_ref.address(), Some(-3));
    assert_eq!(moved_ref.repeat(), Some(Repeat { count: 2, stride: 1 }));
}
