use vice::adapter::poll_completion;
use vice::combinators::ChainState;
use vice::combinators::Either;
use vice::combinators::MapFuture;
use vice::combinators::Step;
use vice::errors::ViceError;

#[test]
fn map_waits_while_inner_is_pending() {
    let map = MapFuture::new(|x: u32| x + 1);
    let (out, map): (Step<u32>, _) = map.poll_step(Step::Pending);
    assert!(matches!(out, Step::Pending));
    let (out, _) = map.poll_step(Step::Ready(41));
    match out {
        Step::Ready(v) => assert_eq!(v, 42),
        Step::Pending => panic!("a ready inner output must map through"),
    }
}

#[test]
fn chain_takes_the_early_exit() {
    let chain: ChainState<_, u32> = ChainState::First {
        continuation: |x: u32| if x == 0 { Err(x + 7) } else { Ok(x) },
    };
    let (state, out) = chain.on_first_output(0);
    assert!(matches!(state, ChainState::Finished));
    assert_eq!(out, Some(7));
}

#[test]
fn chain_continues_with_the_second_future() {
    let chain: ChainState<_, u32> = ChainState::First {
        continuation: |x: u32| if x == 0 { Err(x) } else { Ok(x * 2) },
    };
    let (state, out) = chain.on_first_output(21);
    assert_eq!(out, None);
    let state = match state {
        ChainState::Second { next } => {
            assert_eq!(next, 42);
            ChainState::<fn(u32) -> Result<u32, u32>, u32>::Second { next }
        },
        _ => panic!("a continuation returning a future moves the chain on"),
    };
    let (state, out) = state.on_second_output(42u32);
    assert!(matches!(state, ChainState::Finished));
    assert_eq!(out, 42);
}

#[test]
fn either_converges_both_branches_into_one_type() {
    let left: Either<u32, &str> = Either::Left(5);
    let right: Either<u32, &str> = Either::Right("ten");
    assert_eq!(left.converge(|n| n as usize, |s: &str| s.len()), 5);
    assert_eq!(right.converge(|n| n as usize, |s: &str| s.len()), 3);
}

#[test]
fn either_tags_outputs_by_branch() {
    let left: Either<u8, u8> = Either::Left(1);
    let right: Either<u8, u8> = Either::Right(1);
    assert!(matches!(left.tag_output(9u32), Either::Left(9)));
    assert!(matches!(right.tag_output(9u32), Either::Right(9)));
}

#[test]
fn adapter_passes_results_through() {
    match poll_completion::<u32>(Step::Ready(Some(Ok(3)))) {
        Step::Ready(Ok(v)) => assert_eq!(v, 3),
        _ => panic!("a delivered success passes through"),
    }
    match poll_completion::<u32>(Step::Ready(Some(Err(ViceError::TransportIo)))) {
        Step::Ready(Err(e)) => assert_eq!(e, ViceError::TransportIo),
        _ => panic!("a delivered failure passes through"),
    }
}

#[test]
fn adapter_turns_abandonment_into_unavailability_on_first_poll() {
    match poll_completion::<u32>(Step::Ready(None)) {
        Step::Ready(Err(e)) => assert_eq!(e, ViceError::ActorUnavailable),
        _ => panic!("an abandoned completion is a synchronous failure"),
    }
    assert!(matches!(poll_completion::<u32>(Step::Pending), Step::Pending));
}
