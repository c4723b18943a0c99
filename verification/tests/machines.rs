use turing_machine::{to_bits, MachineState, Move, Tape, Transition};

#[test]
fn test_halted() {
    let states = [
        Transition(|c: char| {
            if c == '1' {
                return MachineState::new('1', Move::Left, 2);
            }
            MachineState::new('1', Move::Halt, 2)
        }),
    ];
    let mut machine = Tape::new('0', 0);
    let _ = machine.start(&states);
    assert_eq!(machine.is_halted(), true);
}

#[test]
fn test_reverse_binary() {
    let mut tape = Tape::new('_', 0);
    let num = 5554;
    for (i, bit) in to_bits(num).iter().enumerate() {
        *tape.get_mut(i) = *bit;
    }
    let states = [
        Transition(|c: char| {
            let state = match c {
                '_' => MachineState::new('_', Move::Halt, 0),
                '0' => MachineState::new('1', Move::Right, 0),
                '1' => MachineState::new('0', Move::Right, 0),
                _ => MachineState::new('E', Move::Halt, 0),
            };
            state
        }),
    ];
    match tape.start(&states) {
        Ok(()) => println!("{}", tape.render()),
        Err(e) => println!("{:?}", e),
    }
    let body_1 = tape.body.clone();

    for (i, bit) in to_bits(!num).iter().enumerate() {
        *tape.get_mut(i) = *bit;
    }
    let body_2 = tape.body.clone();
    assert_eq!(body_1, body_2);
}

#[test]
fn test_comparation() {
    let states: [Transition<fn(char) -> MachineState>; 9] = [
        // State 0: turn a 1 into X, move right, go to state 1. On anything
        // else move right and go to state 5.
        Transition(|c| {
            if c == '1' {
                return MachineState::new('X', Move::Right, 1);
            }
            MachineState::new('0', Move::Right, 5)
        }),
        // State 1: pass over 1s to the right. On anything else move right
        // and go to state 2.
        Transition(|c| {
            if c == '1' {
                return MachineState::new('1', Move::Right, 1);
            }
            MachineState::new('0', Move::Right, 2)
        }),
        // State 2: pass over Xs to the right. On a 1 write X, move left, go
        // to state 3. On a blank move left and go to state 7.
        Transition(|c| {
            if c == 'X' {
                return MachineState::new('X', Move::Right, 2);
            } else if c == '1' {
                return MachineState::new('X', Move::Left, 3);
            }
            MachineState::new('_', Move::Left, 7)
        }),
        // State 3: pass over Xs to the left. On anything else move left and
        // go to state 4.
        Transition(|c| {
            if c == 'X' {
                return MachineState::new('X', Move::Left, 3);
            }
            MachineState::new('0', Move::Left, 4)
        }),
        // State 4: pass over 1s to the left. On anything else write X, move
        // right, go to state 0.
        Transition(|c| {
            if c == '1' {
                return MachineState::new('1', Move::Left, 4);
            }
            MachineState::new('X', Move::Right, 0)
        }),
        // State 5: pass over Xs to the right. On a blank move left and go
        // to state 8. On a 1 move right and go to state 6.
        Transition(|c| {
            if c == 'X' {
                return MachineState::new('X', Move::Right, 5);
            } else if c == '_' {
                return MachineState::new('_', Move::Left, 8);
            }
            MachineState::new('1', Move::Right, 6)
        }),
        // State 6: stop, A is less than B.
        Transition(|_c| {
            return MachineState::new('_', Move::Halt, 6);
        }),
        // State 7: stop, A is greater than B.
        Transition(|_c| {
            return MachineState::new('_', Move::Halt, 7);
        }),
        // State 8: stop, A equals B.
        Transition(|_c| {
            return MachineState::new('_', Move::Halt, 8);
        }),
    ];
    let mut tape = Tape::new('_', 1);
    // 2 and 3 [110111]
    // 5 and 5 [11111011111]
    // 10 and 5 [1111111111011111]
    let chunks = [
        "110111".chars().collect::<Vec<char>>(),
        "1111111111011111".chars().collect::<Vec<char>>(),
        "11111011111".chars().collect::<Vec<char>>(),
    ];

    for (i, chunk) in chunks.iter().enumerate() {
        tape.body[1..1 + chunk.len()].clone_from_slice(chunk);
        let _ = tape.start(&states);
        assert_eq!(i + 6, tape.get_final_pos());
        // a fresh tape for the next pair
        tape = Tape::new('_', 1);
    }
}
