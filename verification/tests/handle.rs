//! What commands are answered.
use block_production::handle::{BlockProductionHandle, Delivery, ExecutorCommandError};

#[test]
fn a_command_is_answered_as_the_executor_replies() {
    let closed = Err(ExecutorCommandError::ChannelClosed);
    assert_eq!(BlockProductionHandle::close_block(Delivery::Replied(Ok(()))), Ok(()));
    assert_eq!(BlockProductionHandle::append_batch(Delivery::Replied(Ok(()))), Ok(()));
    assert_eq!(BlockProductionHandle::append_batch(Delivery::Replied(closed)), closed);
}

#[test]
fn a_stopped_executor_means_a_closed_channel() {
    let closed = Err(ExecutorCommandError::ChannelClosed);
    assert_eq!(BlockProductionHandle::close_block(Delivery::NotSent), closed);
    assert_eq!(BlockProductionHandle::close_block(Delivery::NoReply), closed);
    assert_eq!(BlockProductionHandle::append_batch(Delivery::NotSent), closed);
    assert_eq!(BlockProductionHandle::append_batch(Delivery::NoReply), closed);
    assert_eq!(BlockProductionHandle::send_tx_raw(false), closed);
    assert_eq!(BlockProductionHandle::send_tx_raw(true), Ok(()));
}
