use shell_core::error::ErrorKind;
use shell_core::error::ShellError;
use shell_core::list_stream::ListStream;
use shell_core::list_stream::Pull;
use shell_core::pipeline::ByteStream;
use shell_core::pipeline::PipelineData;
use shell_core::signals::Signals;
use shell_core::span::Span;
use shell_core::value::Value;

fn at() -> Span {
    Span::new(5, 9, 0)
}

fn num(val: i64) -> Value {
    Value::Int { val, span: at() }
}

fn item(p: Pull) -> i64 {
    match p {
        Pull::Item(Value::Int { val, span }) => {
            assert_eq!(span, at());
            val
        }
        _ => panic!("no integer was pulled"),
    }
}

fn ints(v: &Value) -> Vec<i64> {
    match v {
        Value::List { vals, .. } => vals
            .iter()
            .map(|x| match x {
                Value::Int { val, .. } => *val,
                _ => panic!("no integer"),
            })
            .collect(),
        _ => panic!("no list"),
    }
}

#[test]
fn cancellation_after_three_pulls_takes_no_fourth_value() {
    let signals = Signals::new();
    let mut stream = ListStream::counter(10, 5, signals.share(), at());
    assert_eq!(item(stream.next()), 10);
    assert_eq!(item(stream.next()), 15);
    assert_eq!(item(stream.next()), 20);
    signals.trigger();
    assert!(matches!(stream.next(), Pull::Cancelled));
    assert!(matches!(stream.next(), Pull::Cancelled));
    // the fourth value was not taken: a pull that sees no signal gets it
    assert_eq!(item(stream.pull(false)), 25);
    match stream.collect(100) {
        Err(ShellError::Cancelled { span }) => assert_eq!(span, at()),
        _ => panic!("the rest of the stream was handed out"),
    }
}

#[test]
fn a_pull_that_sees_the_signal_leaves_the_stream_as_it_is() {
    let mut stream = ListStream::from_vec(vec![num(1), num(2)], Signals::empty(), at());
    assert!(matches!(stream.pull(true), Pull::Cancelled));
    assert_eq!(item(stream.pull(false)), 1);
    assert!(matches!(stream.pull(true), Pull::Cancelled));
    assert_eq!(item(stream.pull(false)), 2);
    assert!(matches!(stream.pull(false), Pull::Done));
    assert!(matches!(stream.pull(false), Pull::Done));
    assert!(matches!(stream.pull(true), Pull::Cancelled));
}

#[test]
fn values_come_in_the_order_of_the_producer() {
    let mut stream = ListStream::from_vec(vec![num(3), num(1), num(2)], Signals::new(), at());
    assert_eq!(stream.span(), at());
    assert_eq!(item(stream.next()), 3);
    assert_eq!(item(stream.next()), 1);
    assert_eq!(item(stream.next()), 2);
    assert!(matches!(stream.next(), Pull::Done));
}

#[test]
fn a_counter_wraps_at_the_end_of_the_range() {
    let mut stream = ListStream::counter(i64::MAX - 1, 1, Signals::empty(), at());
    assert_eq!(item(stream.next()), i64::MAX - 1);
    assert_eq!(item(stream.next()), i64::MAX);
    assert_eq!(item(stream.next()), i64::MIN);
    let mut down = ListStream::counter(0, -3, Signals::empty(), at());
    assert_eq!(item(down.next()), 0);
    assert_eq!(item(down.next()), -3);
}

#[test]
fn repeat_gives_one_value_without_end() {
    let mut stream = ListStream::repeat(num(7), Signals::empty(), at());
    let got = stream.collect(4).expect("nothing cancels");
    assert_eq!(got.len(), 4);
    assert_eq!(item(stream.next()), 7);
}

#[test]
fn collect_stops_at_the_limit_or_at_the_end() {
    let mut stream = ListStream::from_vec(vec![num(1), num(2), num(3)], Signals::empty(), at());
    let got = stream.collect(2).expect("nothing cancels");
    assert_eq!(got.len(), 2);
    let got = stream.collect(2).expect("nothing cancels");
    assert_eq!(got.len(), 1);
    assert_eq!(item(Pull::Item(got[0].clone())), 3);
    assert!(stream.collect(2).expect("nothing cancels").is_empty());
    assert!(stream.collect(0).expect("nothing cancels").is_empty());
}

#[test]
fn a_handle_without_a_flag_is_never_cancelled() {
    let signals = Signals::empty();
    signals.trigger();
    assert!(!signals.cancelled());
    assert!(!signals.share().cancelled());
    let flagged = Signals::new();
    let other = flagged.share();
    assert!(!flagged.cancelled());
    other.trigger();
    assert!(flagged.cancelled());
    assert!(flagged.share().cancelled());
}

#[test]
fn into_value_of_nothing_and_of_a_value() {
    match PipelineData::Empty.into_value(at()) {
        Ok(Value::Nothing { span }) => assert_eq!(span, at()),
        _ => panic!("not the nothing value"),
    }
    match PipelineData::Value(num(5)).into_value(Span::unknown()) {
        Ok(Value::Int { val, span }) => {
            assert_eq!(val, 5);
            assert_eq!(span, at());
        }
        _ => panic!("not the value"),
    }
}

#[test]
fn into_value_of_a_stream_is_the_list_of_its_values() {
    let stream = ListStream::from_vec(vec![num(1), num(2), num(3)], Signals::new(), at());
    let value = PipelineData::ListStream(stream).into_value(Span::unknown()).expect("ends");
    assert_eq!(ints(&value), vec![1, 2, 3]);
    assert_eq!(value.span(), at());
    let mut started = ListStream::from_vec(vec![num(1), num(2), num(3)], Signals::empty(), at());
    assert_eq!(item(started.next()), 1);
    let value = PipelineData::ListStream(started).into_value(at()).expect("ends");
    assert_eq!(ints(&value), vec![2, 3]);
}

#[test]
fn into_value_of_a_cancelled_stream_is_that_failure() {
    let signals = Signals::new();
    let stream = ListStream::from_vec(vec![num(1), num(2)], signals.share(), at());
    signals.trigger();
    match PipelineData::ListStream(stream).into_value(Span::unknown()) {
        Err(e) => {
            assert_eq!(e.kind(), ErrorKind::Cancelled);
            assert_eq!(e.span(), at());
        }
        Ok(_) => panic!("a part of the stream passed for the whole"),
    }
}

#[test]
fn into_iter_of_each_kind_of_data() {
    let mut none = PipelineData::Empty.into_iter();
    assert!(matches!(none.next(), Pull::Done));
    let list = Value::List { vals: vec![num(4), num(5)], span: at() };
    let mut two = PipelineData::Value(list).into_iter();
    assert_eq!(two.span(), at());
    assert_eq!(item(two.next()), 4);
    assert_eq!(item(two.next()), 5);
    assert!(matches!(two.next(), Pull::Done));
    let mut one = PipelineData::Value(num(6)).into_iter();
    assert_eq!(item(one.next()), 6);
    assert!(matches!(one.next(), Pull::Done));
    let endless = ListStream::counter(0, 1, Signals::empty(), at());
    let mut same = PipelineData::ListStream(endless).into_iter();
    assert_eq!(item(same.next()), 0);
    assert_eq!(item(same.next()), 1);
    let bytes = ByteStream::new(vec![vec![1, 2], vec![], vec![255]], None, None, Signals::empty(), at());
    let mut of_bytes = PipelineData::ByteStream(bytes).into_iter();
    assert_eq!(item(of_bytes.next()), 1);
    assert_eq!(item(of_bytes.next()), 2);
    assert_eq!(item(of_bytes.next()), 255);
    assert!(matches!(of_bytes.next(), Pull::Done));
}

#[test]
fn a_byte_stream_gives_its_chunks_one_after_the_other() {
    let stream = ByteStream::new(
        vec![vec![104, 105], vec![], vec![33]],
        Some(3),
        Some("text/plain".to_string()),
        Signals::new(),
        at(),
    );
    assert_eq!(stream.known_len(), Some(3));
    assert_eq!(stream.content_type(), Some("text/plain".to_string()));
    assert_eq!(stream.span(), at());
    assert_eq!(stream.into_bytes().expect("nothing cancels"), vec![104, 105, 33]);
    let unknown = ByteStream::new(vec![], None, None, Signals::empty(), at());
    assert_eq!(unknown.known_len(), None);
    assert_eq!(unknown.content_type(), None);
    assert!(PipelineData::ByteStream(unknown).into_bytes().expect("nothing cancels").is_empty());
}

#[test]
fn a_cancelled_byte_stream_gives_that_failure() {
    let signals = Signals::new();
    let stream = ByteStream::new(vec![vec![1], vec![2]], None, None, signals.share(), at());
    signals.trigger();
    match PipelineData::ByteStream(stream).into_bytes() {
        Err(ShellError::Cancelled { span }) => assert_eq!(span, at()),
        _ => panic!("a part of the stream passed for the whole"),
    }
    let stream = ByteStream::new(vec![vec![1], vec![2]], None, None, signals.share(), at());
    match PipelineData::ByteStream(stream).into_value(at()) {
        Err(e) => assert_eq!(e.kind(), ErrorKind::Cancelled),
        Ok(_) => panic!("a part of the stream passed for the whole"),
    }
}

#[test]
fn into_value_of_a_byte_stream_is_the_list_of_its_bytes() {
    let stream = ByteStream::new(vec![vec![0, 200], vec![7]], None, None, Signals::empty(), at());
    let value = PipelineData::ByteStream(stream).into_value(Span::unknown()).expect("ends");
    assert_eq!(ints(&value), vec![0, 200, 7]);
    assert_eq!(value.span(), at());
}

#[test]
fn into_bytes_of_values() {
    assert!(PipelineData::Empty.into_bytes().expect("no bytes").is_empty());
    let text = Value::String { val: "h\u{e9}".to_string(), span: at() };
    assert_eq!(PipelineData::Value(text).into_bytes().expect("bytes"), vec![104, 195, 169]);
    match PipelineData::Value(num(1)).into_bytes() {
        Err(ShellError::CantConvert { to_type, from_type, span, help }) => {
            assert_eq!(to_type, "binary");
            assert_eq!(from_type, "int");
            assert_eq!(span, at());
            assert_eq!(help, None);
        }
        _ => panic!("an integer passed for bytes"),
    }
    let stream = ListStream::from_vec(vec![num(1)], Signals::empty(), at());
    match PipelineData::ListStream(stream).into_bytes() {
        Err(ShellError::CantConvert { to_type, from_type, span, .. }) => {
            assert_eq!(to_type, "binary");
            assert_eq!(from_type, "list");
            assert_eq!(span, at());
        }
        _ => panic!("a list passed for bytes"),
    }
}
