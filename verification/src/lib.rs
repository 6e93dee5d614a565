//! Verified core of a qaul.net TCP network module and its services.

mod addr;
mod frame;
mod peers;
mod peer_laws;
mod link;
mod voice;
mod order;
mod reconnect;
mod files;
mod call_task;

pub use addr::{AddrKey, PeerAddr, lemma_key_injective};
pub use frame::{be_bytes, be_value, encode_frame, frame_len, parse_frame, spec_parse_frame, lemma_be_value_of_bytes, lemma_frame_roundtrip, lemma_parse_frame_complete};
pub use peers::{LinkState, Peer, PeerErrs, PeerInsertError, Peers, PeersModel, spec_link_state, lemma_load_cur_bound, lemma_load_cur_monotone};
pub use peer_laws::{lemma_empty_wf, lemma_add_keeps_wf, lemma_del_keeps_wf, lemma_add_then_lookup, lemma_del_then_lookup, lemma_change_keeps_wf, lemma_change_dst_moves_peer, lemma_load_keeps_wf, lemma_add_then_del, lemma_change_keeps_others, lemma_load_refuses_exactly_repeats, loads_cleanly};
pub use link::{Incoming, Mode, Packet, accept_peer, lemma_accept_finds_peer, lemma_on_packet_keeps_wf, lemma_hello_makes_duplex, lemma_frame_goes_to_sender, lemma_accept_new_peer, can_handle, on_packet, spec_accept, spec_on_packet, unhandled};
pub use voice::{Call, CallData, CallEvent, CallId, CallInvitation, CallMessage, CallUser, CallUsers, Clients, Identity, SubscribeError, recipients};
pub use order::strictly_increasing;
pub use reconnect::{Attempt, Next, Reconnect};
pub use files::{File, FileFilter, FileId, FileMeta, Files};
pub use call_task::{Action, CallChange, CallOp, CallTask, Event, Phase, is_notice, notifies};
