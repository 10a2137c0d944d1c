use modal_editor::util;

#[test]
fn rotate_forward() {
    assert_eq!(util::rotate_forward(0, 3, 0), 1);
    assert_eq!(util::rotate_forward(0, 3, 1), 2);
    assert_eq!(util::rotate_forward(0, 3, 2), 0);
}

#[test]
fn rotate_backward() {
    assert_eq!(util::rotate_backward(0, 3, 0), 2);
    assert_eq!(util::rotate_backward(0, 3, 1), 0);
    assert_eq!(util::rotate_backward(0, 3, 2), 1);
}

#[test]
fn rotate_forward_from_another_start() {
    assert_eq!(util::rotate_forward(2, 5, 2), 3);
    assert_eq!(util::rotate_forward(2, 5, 4), 2);
}

#[test]
fn rotate_backward_from_another_start() {
    assert_eq!(util::rotate_backward(2, 5, 2), 4);
    assert_eq!(util::rotate_backward(2, 5, 3), 2);
}

#[test]
fn a_round_of_steps_leads_back() {
    for start in 0..7 {
        let mut forward = start;
        let mut backward = start;
        for _ in 0..7 {
            forward = util::rotate_forward(0, 7, forward);
            backward = util::rotate_backward(0, 7, backward);
        }
        assert_eq!(forward, start);
        assert_eq!(backward, start);
    }
}

#[test]
fn a_step_back_undoes_a_step_forward() {
    for start in 0..5 {
        assert_eq!(util::rotate_backward(0, 5, util::rotate_forward(0, 5, start)), start);
        assert_eq!(util::rotate_forward(0, 5, util::rotate_backward(0, 5, start)), start);
    }
}
