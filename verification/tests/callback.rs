use eclipse_core::callback::Callback;

#[test]
fn callbacks_name_the_methods_of_the_host() {
    let text = || "t".to_string();
    let list = [
        (Callback::StreamStart, "onStreamStart", None, "()V"),
        (Callback::StreamEnd, "onStreamEnd", None, "()V"),
        (Callback::System(text()), "onSystem", Some("t"), "(Ljava/lang/String;)V"),
        (Callback::Text(text()), "onText", Some("t"), "(Ljava/lang/String;)V"),
        (Callback::ToolStart(text()), "onToolStart", Some("t"), "(Ljava/lang/String;)V"),
        (Callback::Error(text()), "onError", Some("t"), "(Ljava/lang/String;)V"),
        (Callback::ScreenUpdate(text()), "onScreenUpdate", Some("t"), "(Ljava/lang/String;)V"),
        (Callback::Exit, "onExit", None, "()V"),
    ];
    for (call, method, argument, descriptor) in list {
        assert_eq!(call.method(), method);
        assert_eq!(call.argument(), argument);
        assert_eq!(call.descriptor(), descriptor);
    }
}
