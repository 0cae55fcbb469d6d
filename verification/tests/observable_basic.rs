use fanout::Observable;
use fanout::Observer;
use fanout::Registry;

#[derive(PartialEq, Debug)]
enum MyMessage {
    Msg(&'static str),
}

#[derive(Default)]
struct BeforeObserver {
    output: String,
    counter: usize,
}

#[derive(Default)]
struct AfterObserver {
    output: String,
    counter: usize,
}

enum AnyObserver {
    Before(BeforeObserver),
    After(AfterObserver),
}

impl Observer<MyMessage> for AnyObserver {
    fn notified(mut self, event: MyMessage) -> Self {
        self.notify(&event);
        self
    }

    fn notify(&mut self, event: &MyMessage) {
        match self {
            AnyObserver::Before(observer) => {
                observer.counter += 1;
                observer.output = match event {
                    MyMessage::Msg(text) => format!("{}, World", text),
                };
            }
            AnyObserver::After(observer) => {
                observer.counter += 1;
                observer.output = match event {
                    MyMessage::Msg(text) => format!("Hello, {}", text),
                };
            }
        }
    }
}

fn before_state(observer: Option<&AnyObserver>) -> Option<(usize, &str)> {
    match observer {
        Some(AnyObserver::Before(o)) => Some((o.counter, &o.output[..])),
        _ => None,
    }
}

fn after_state(observer: Option<&AnyObserver>) -> Option<(usize, &str)> {
    match observer {
        Some(AnyObserver::After(o)) => Some((o.counter, &o.output[..])),
        _ => None,
    }
}

#[test]
fn test_observable() {
    let mut observable = Observable::<MyMessage>::new();
    let mut registry = Registry::<AnyObserver>::new();

    let ob1 = registry.add(AnyObserver::Before(BeforeObserver::default()));
    observable.register(ob1.downgrade());
    observable.send_to_all(&mut registry, &MyMessage::Msg("1"));

    {
        let state1 = before_state(registry.get(&ob1));
        assert_eq!(state1.map(|v| v.0), Some(1usize));
        assert_eq!(state1.map(|v| v.1), Some(&format!("1, World")[..]));
    }

    let ob2 = registry.add(AnyObserver::After(AfterObserver::default()));
    observable.register(ob2.downgrade());
    observable.send_to_all(&mut registry, &MyMessage::Msg("2"));

    {
        let state1 = before_state(registry.get(&ob1));
        let state2 = after_state(registry.get(&ob2));
        assert_eq!(state1.map(|v| v.0), Some(2usize));
        assert_eq!(state1.map(|v| v.1), Some(&format!("2, World")[..]));
        assert_eq!(state2.map(|v| v.0), Some(1usize));
        assert_eq!(state2.map(|v| v.1), Some(&format!("Hello, 2")[..]));
    }

    observable.send_to(&mut registry, &MyMessage::Msg("3"), 1);

    {
        let state1 = before_state(registry.get(&ob1));
        let state2 = after_state(registry.get(&ob2));
        assert_eq!(state1.map(|v| v.0), Some(2usize));
        assert_eq!(state1.map(|v| v.1), Some(&format!("2, World")[..]));
        assert_eq!(state2.map(|v| v.0), Some(2usize));
        assert_eq!(state2.map(|v| v.1), Some(&format!("Hello, 3")[..]));
    }
}

#[test]
fn it_works() {
    let result: i32 = 2 + 2;
    assert_eq!(result, 4);
}
