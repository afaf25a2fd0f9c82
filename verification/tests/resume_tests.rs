use tobi::resume::ResumeCursor;

#[test]
fn first_response_sets_the_length() {
    let mut c = ResumeCursor::new(None, 2);
    assert_eq!(c.range_header(), None);
    assert_eq!(c.accept_response("http://h/i", true, false, "200 OK", Some(10), &None), Ok(()));
    assert_eq!(c.expected_len(), Some(10));
    c.advance(4);
    assert!(c.ended_early());
    assert_eq!(c.range_header().as_deref(), Some("bytes=4-"));
    assert_eq!(c.reconnect("reset"), Ok(true));
    assert_eq!(
        c.accept_response("http://h/i", true, false, "200 OK", Some(10), &None),
        Err("server did not honor resume request at byte 4 for http://h/i".to_string())
    );
    assert_eq!(
        c.accept_response("http://h/i", true, true, "206 Partial Content", Some(6), &None),
        Err("resume response is missing Content-Range".to_string())
    );
    assert_eq!(
        c.accept_response("http://h/i", true, true, "206 Partial Content", Some(6), &Some(Ok("bytes 5-9/10".to_string()))),
        Err("resume started at byte 5, expected 4".to_string())
    );
    assert_eq!(
        c.accept_response("http://h/i", true, true, "206 Partial Content", Some(6), &Some(Ok("bytes 4-9/11".to_string()))),
        Err("resumed download size changed from 10 to 11".to_string())
    );
    assert_eq!(
        c.accept_response("http://h/i", true, true, "206 Partial Content", Some(6), &Some(Ok("bytes 4-9/10".to_string()))),
        Ok(())
    );
    c.advance(6);
    assert!(c.finished());
    assert_eq!(c.reconnect("late"), Ok(false));
}

#[test]
fn reconnections_are_limited() {
    let mut c = ResumeCursor::new(Some(10), 1);
    c.advance(3);
    assert_eq!(c.reconnect("reset"), Ok(true));
    assert_eq!(
        c.reconnect("reset"),
        Err("download interrupted at byte 3 and resume retries are exhausted: reset".to_string())
    );
    assert_eq!(
        c.accept_response("http://h/i", false, false, "404 Not Found", None, &None),
        Err("HTTP 404 Not Found while requesting http://h/i".to_string())
    );
}
