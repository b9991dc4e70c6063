use std::sync::{Arc, Mutex};
use std::time::Duration;

use mavlink_server::drivers::{should_forward, FakeSource};
use mavlink_server::frame::Protocol;

#[test]
fn loopback_test() {
    let runtime = tokio::runtime::Builder::new_multi_thread().enable_all().build().unwrap();
    runtime.block_on(async {
        let (hub_sender, _) = tokio::sync::broadcast::channel::<Arc<Protocol>>(10000);

        let number_of_messages = 800;
        let message_period = Duration::from_micros(1);
        let timeout_time = Duration::from_secs(1);

        let source_messages = Arc::new(Mutex::new(Vec::<Arc<Protocol>>::with_capacity(1000)));
        let sink_messages = Arc::new(Mutex::new(Vec::<Arc<Protocol>>::with_capacity(1000)));

        let mut sink_receiver = hub_sender.subscribe();
        let sink_store = sink_messages.clone();
        let sink_task = tokio::spawn(async move {
            let sink_tag = "FakeSink".to_string();
            while let Ok(message) = sink_receiver.recv().await {
                if should_forward(&message, &sink_tag) {
                    sink_store.lock().unwrap().push(message);
                }
            }
        });

        let source_store = source_messages.clone();
        let source_sender = hub_sender.clone();
        let source_task = tokio::spawn(async move {
            let mut source = FakeSource::builder(message_period.as_micros() as u64).build();
            let mut ticks = tokio::time::interval(message_period);
            ticks.set_missed_tick_behavior(tokio::time::MissedTickBehavior::Burst);
            loop {
                ticks.tick().await;
                for message in source.next_messages() {
                    let message = Arc::new(message);
                    source_store.lock().unwrap().push(message.clone());
                    let _ = source_sender.send(message);
                }
            }
        });

        let sink_watch = sink_messages.clone();
        let monitor = tokio::spawn(async move {
            loop {
                if sink_watch.lock().unwrap().len() >= number_of_messages {
                    break;
                }
                tokio::time::sleep(Duration::from_millis(1)).await;
            }
        });
        let waited = tokio::time::timeout(timeout_time, monitor).await;
        assert!(waited.is_ok(), "sink messages: {:?}", sink_messages.lock().unwrap().len());

        source_task.abort();
        tokio::time::sleep(Duration::from_millis(20)).await;
        sink_task.abort();

        let source_messages = source_messages.lock().unwrap().clone();
        let sink_messages = sink_messages.lock().unwrap().clone();
        assert!(source_messages.len() >= number_of_messages);
        assert!(sink_messages.len() >= number_of_messages);
        assert_eq!(source_messages, sink_messages);
    });
}

#[test]
fn lag_tolerance() {
    let (hub_sender, _) = tokio::sync::broadcast::channel::<Arc<Protocol>>(16);
    let mut slow_sink = hub_sender.subscribe();
    let mut source = FakeSource::builder(100).build();
    for _ in 0..1000 {
        for message in source.next_messages() {
            assert!(hub_sender.send(Arc::new(message)).is_ok());
        }
    }
    let mut lagged = 0;
    let mut received = Vec::new();
    loop {
        match slow_sink.try_recv() {
            Ok(message) => received.push(message.sequence()),
            Err(tokio::sync::broadcast::error::TryRecvError::Lagged(count)) => {
                let error = mavlink_server::drivers::ChannelError::Lagged(count);
                assert!(mavlink_server::drivers::continues_after(error));
                lagged += count;
            }
            Err(_) => break,
        }
    }
    assert_eq!(lagged, 984);
    assert_eq!(received.len(), 16);
    let expected: Vec<u8> = (984..1000u32).map(|i| (i % 256) as u8).collect();
    assert_eq!(received, expected);
}
