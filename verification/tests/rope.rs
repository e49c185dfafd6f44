use quickcheck::quickcheck;
use u8rope::Rope;

fn collect_bytes(rope: &Rope) -> Vec<u8> {
    let mut out = Vec::new();
    let mut it = rope.iter();
    while let Some(b) = it.next() {
        out.push(*b);
    }
    out
}

fn chars_up_to(rope: &Rope, limit: usize) -> String {
    let mut s = String::new();
    for i in 0..limit {
        s.push(rope.get(i).map(|x| *x as char).unwrap_or('?'));
    }
    s
}

#[test]
fn basic() {
    let ropes = vec![
        Rope::new(),
        Rope::from("created using `from` and &str"),
        Rope::from(vec![0, 1, 2, 3, 4]),
        "created using `into`".into(),
    ];

    for rope in &ropes {
        assert_eq!(chars_up_to(rope, 30).chars().count(), 30);
    }
    assert_eq!(chars_up_to(&ropes[0], 30), "??????????????????????????????");
    assert_eq!(chars_up_to(&ropes[1], 30), "created using `from` and &str?");
    assert_eq!(
        chars_up_to(&ropes[2], 30),
        "\u{0}\u{1}\u{2}\u{3}\u{4}?????????????????????????"
    );
    assert_eq!(chars_up_to(&ropes[3], 30), "created using `into`??????????");
}

#[test]
fn from() {
    let r1 = Rope::from(vec![]);
    let r2 = Rope::from(vec![0]);
    let r3 = Rope::from(vec![0, 1]);

    assert_eq!(r1.len(), 0);
    assert_eq!(r2.len(), 1);
    assert_eq!(r3.len(), 2);

    assert_eq!(r1.get(0), None);
    assert_eq!(r2.get(0), Some(&0));
    assert_eq!(r3.get(0), Some(&0));
    assert_eq!(r3.get(1), Some(&1));
}

#[test]
fn clone() {
    let r1 = Rope::from(vec![0; 1024 * 1024]);

    let mut container = Vec::new();
    for _i in 1..1024 * 2 {
        container.push(r1.clone());
    }

    assert_eq!(container.len(), 1024 * 2 - 1);
    for r in &container {
        assert_eq!(r.len(), 1024 * 1024);
    }
}

fn get_same_as_vec(test: Vec<u8>, index: usize) -> bool {
    let rope = Rope::from(test.clone());
    rope.get(index) == test.get(index) && rope.len() == test.len()
}

#[test]
fn get() {
    quickcheck(get_same_as_vec as fn(Vec<u8>, usize) -> bool);
}

fn concat_same_as_vec(test: Vec<Vec<u8>>) -> bool {
    let r = {
        let mut tmp = Rope::new();
        for v in &test {
            tmp = tmp.concat(&Rope::from(v.clone()));
        }
        tmp
    };

    let v = {
        let mut tmp = Vec::new();
        for v in &test {
            tmp.append(&mut v.clone());
        }
        tmp
    };

    let bytes = collect_bytes(&r);
    bytes.len() == v.len() && bytes.iter().zip(v.iter()).all(|(&x, &y)| x == y)
}

#[test]
fn concat() {
    quickcheck(concat_same_as_vec as fn(Vec<Vec<u8>>) -> bool);
}

#[test]
fn split() {
    let rope = Rope::from(vec![0, 1, 2, 3, 4, 5, 6]);
    let (l, r) = rope.split(4).unwrap();

    assert_eq!(collect_bytes(&l), vec![0, 1, 2, 3]);
    assert_eq!(collect_bytes(&r), vec![4, 5, 6]);
}

#[test]
fn report() {
    let rope = Rope::from("Hello, World!");

    let bytes = collect_bytes(&rope);
    assert_eq!(bytes, b"Hello, World!".to_vec());

    let mut count: usize = 0;
    let mut x = rope.iter();
    while let Some(_c) = x.next() {
        count += 1;
    }

    let mut min: Option<u8> = None;
    let mut y = rope.iter();
    while let Some(&c) = y.next() {
        min = Some(match min {
            None => c,
            Some(m) => {
                if c < m {
                    c
                } else {
                    m
                }
            }
        });
    }

    assert_eq!(count, 13);
    assert_eq!(min, Some(b' '));

    let x = Rope::from("Hello, ");
    let y = Rope::from("World!");
    let mut chained = String::new();
    let mut ix = x.iter();
    while let Some(&c) = ix.next() {
        chained.push(c as char);
    }
    let mut iy = y.iter();
    while let Some(&c) = iy.next() {
        chained.push(c as char);
    }
    assert_eq!(chained, "Hello, World!");
}
