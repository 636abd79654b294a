use goesbox::crc::{calc_crc16, calc_crc32};
use goesbox::handlers::{dispatch, DcsHandler, DebugHandler, Handler, HandlerError, TextAction, TextHandler};
use goesbox::headers::{read_headers, Headers};
use goesbox::session::LRIT;

fn headers(filetype: u8, extra: &[u8]) -> Headers {
    let total = (16 + extra.len()) as u32;
    let mut d = vec![0u8, 0, 16, filetype];
    d.extend_from_slice(&total.to_be_bytes());
    d.extend_from_slice(&0u64.to_be_bytes());
    d.extend_from_slice(extra);
    read_headers(&d).unwrap()
}

fn annotation(text: &str) -> Vec<u8> {
    let mut v = vec![4u8, 0, (text.len() + 3) as u8];
    v.extend_from_slice(text.as_bytes());
    v
}

fn noaa(product: u16, compression: u8) -> Vec<u8> {
    let mut v = vec![129u8, 0, 14, b'N', b'O', b'A', b'A'];
    v.extend_from_slice(&product.to_be_bytes());
    v.extend_from_slice(&[0, 0, 0, 0, compression]);
    v
}

fn lrit(h: Headers, data: Vec<u8>) -> LRIT {
    LRIT { vcid: 0, headers: h, data }
}

struct Counter {
    calls: usize,
    answer: bool,
}

impl Handler for Counter {
    fn handled(&self, _lrit: LRIT, after: Self, r: Result<(), HandlerError>) -> bool {
        after.calls == self.calls + 1 && r.is_ok() == self.answer
    }

    fn handle(&mut self, _lrit: &LRIT) -> Result<(), HandlerError> {
        self.calls += 1;
        if self.answer {
            Ok(())
        } else {
            Err(HandlerError::Skipped)
        }
    }
}

#[test]
fn dispatch_reaches_every_handler_in_order() {
    let mut hs = vec![Counter { calls: 0, answer: false }, Counter { calls: 0, answer: true }];
    let l = lrit(headers(2, &[]), vec![]);
    let results = dispatch(&mut hs, &l);
    assert_eq!(results.len(), 2);
    assert!(matches!(results[0], Err(HandlerError::Skipped)));
    assert!(results[1].is_ok());
    assert_eq!((hs[0].calls, hs[1].calls), (1, 1));
}

#[test]
fn text_handler_selects_text_files() {
    let h = TextHandler::new("out".to_owned());
    assert_eq!(h.output_root, "out");
    let image = lrit(headers(0, &annotation("A.TXT")), vec![]);
    assert!(matches!(h.select(&image), Err(HandlerError::Skipped)));
    let plain = lrit(headers(2, &annotation("A.TXT")), b"hi".to_vec());
    assert_eq!(h.select(&plain).unwrap(), TextAction::WriteAsAnnotated);
    let mut extra = annotation("A.ZIP");
    extra.extend(noaa(6, 10));
    let zipped = lrit(headers(2, &extra), vec![]);
    assert_eq!(h.select(&zipped).unwrap(), TextAction::Unzip);
    let nameless = lrit(headers(2, &[]), vec![]);
    assert!(matches!(h.select(&nameless), Err(HandlerError::MissingHeader("annotation"))));
}

#[test]
fn debug_handler_needs_annotation() {
    let h = DebugHandler::new("out".to_owned());
    assert!(h.select(&lrit(headers(0, &annotation("X")), vec![])).is_ok());
    assert!(matches!(h.select(&lrit(headers(0, &[]), vec![])), Err(HandlerError::MissingHeader("annotation"))));
}

#[test]
fn dcs_handler_selection() {
    let h = DcsHandler::new("out".to_owned());
    assert!(matches!(h.select(&lrit(headers(2, &[]), vec![])), Err(HandlerError::Skipped)));
    assert!(matches!(h.select(&lrit(headers(130, &[]), vec![])), Err(HandlerError::MissingHeader("NOAA"))));
    assert!(matches!(h.select(&lrit(headers(130, &noaa(9, 0)), vec![])), Err(HandlerError::Skipped)));
    assert!(matches!(
        h.select(&lrit(headers(130, &noaa(8, 0)), vec![])),
        Err(HandlerError::MissingHeader("annotation"))
    ));
    let mut extra = noaa(8, 0);
    extra.extend(annotation("DCS.lrit"));
    assert!(h.select(&lrit(headers(130, &extra), vec![])).is_ok());
}

#[test]
fn dcs_handler_decodes_a_file() {
    let mut file = Vec::new();
    let mut name = b"dcs".to_vec();
    name.resize(32, b' ');
    file.extend(name);
    file.extend_from_slice(b"00000068");
    file.extend_from_slice(b"XE  DCSH");
    file.extend_from_slice(&[0u8; 12]);
    let c = calc_crc32(&file);
    file.extend_from_slice(&c.to_le_bytes());
    let c = calc_crc32(&file);
    file.extend_from_slice(&c.to_le_bytes());
    let mut extra = noaa(8, 0);
    extra.extend(annotation("DCS.lrit"));
    let h = DcsHandler::new("out".to_owned());
    let (header, blocks) = h.decode(&lrit(headers(130, &extra), file.clone())).unwrap();
    assert_eq!(header.payload_len, 68);
    assert!(blocks.is_empty());
    file[44] = b'X';
    assert!(matches!(h.decode(&lrit(headers(130, &extra), file)), Err(HandlerError::Parse(_))));
    assert_eq!(calc_crc16(b""), 0xFFFF);
}
