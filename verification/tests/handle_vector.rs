use sokoban::handle_vector::Data;

#[test]
fn lel() {
    assert!(true);
}

#[test]
fn t0() {
    let mut d = Data::<i32>::new();
    assert!(d.is_empty() == true);

    d.push(100);
    assert!(d.is_empty() == false);
}
