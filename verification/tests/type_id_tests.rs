use sauron_core::callback::Callback;

#[test]
fn test_type_ids() {
    #[allow(dead_code)]
    enum Msg {
        Click(usize),
        Hover(i32),
    }

    #[allow(dead_code)]
    enum ParentMsg {
        Other,
    }

    let cb1: Callback<(), Msg> = Callback::from(|_e| Msg::Click(1));
    let cb2: Callback<(), Msg> = Callback::from(|_e| Msg::Hover(2));
    let cb3: Callback<(), Msg> = Callback::from(|_e| Msg::Hover(3));

    let _other_cb: Callback<(), ParentMsg> = Callback::from(|_e| ParentMsg::Other);

    assert!(cb2 == cb3);
    assert!(cb1 == cb2);
}

#[test]
fn callback_emits_and_maps() {
    let cb: Callback<i32, i32> = Callback::from(|x: i32| x + 1);
    assert_eq!(cb.emit(1), 2);
    let doubled = cb.clone().map_msg(|x: i32| x * 2);
    assert_eq!(doubled.emit(3), 8);
}
