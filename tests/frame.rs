use roblox_browser::frame::{diff_frames, Frame};
use roblox_browser::protocol::{ChunkPos, ServerCommand};
use roblox_browser::session::FrameSync;

fn solid(width: u32, height: u32, v: u8) -> Frame {
    Frame::new(width, height, vec![v; (width * height * 4) as usize]).unwrap()
}

fn set_pixel(f: &mut Frame, x: u32, y: u32, rgba: [u8; 4]) {
    let i = ((y * f.width + x) * 4) as usize;
    f.pixels[i..i + 4].copy_from_slice(&rgba);
}

fn chunk_positions(cmds: &[ServerCommand]) -> Vec<(u8, u8)> {
    cmds.iter()
        .filter_map(|c| match c {
            ServerCommand::ChunkData { chunk_pos, .. } => Some((chunk_pos.x, chunk_pos.y)),
            _ => None,
        })
        .collect()
}

#[test]
fn frame_new_rejects_bad_sizes() {
    assert!(Frame::new(0, 1, vec![]).is_none());
    assert!(Frame::new(2, 2, vec![0; 15]).is_none());
    assert!(Frame::new(32769, 1, vec![0; 32769 * 4]).is_none());
    assert!(Frame::new(2, 2, vec![0; 16]).is_some());
}

#[test]
fn grid_rounds_up() {
    let f = solid(300, 129, 0);
    assert_eq!(f.chunks_x(), 3);
    assert_eq!(f.chunks_y(), 2);
}

#[test]
fn edge_chunk_is_clipped() {
    let mut f = solid(130, 1, 0);
    set_pixel(&mut f, 128, 0, [1, 2, 3, 4]);
    set_pixel(&mut f, 129, 0, [5, 6, 7, 8]);
    assert_eq!(f.chunk(ChunkPos::new(1, 0)), vec![1, 2, 3, 4, 5, 6, 7, 8]);
    assert_eq!(f.chunk(ChunkPos::new(0, 0)).len(), 128 * 4);
}

#[test]
fn chunk_is_row_major() {
    let mut f = solid(2, 2, 0);
    set_pixel(&mut f, 1, 0, [1, 1, 1, 1]);
    set_pixel(&mut f, 0, 1, [2, 2, 2, 2]);
    assert_eq!(f.chunk(ChunkPos::new(0, 0)), vec![0, 0, 0, 0, 1, 1, 1, 1, 2, 2, 2, 2, 0, 0, 0, 0]);
}

#[test]
fn first_frame_is_full_sync() {
    let f = solid(300, 200, 9);
    let cmds = diff_frames(&None, &f);
    assert_eq!(cmds.len(), 1 + 3 * 2);
    assert_eq!(cmds[0], ServerCommand::Resize { width: 300, height: 200 });
    let mut pos = chunk_positions(&cmds);
    pos.sort();
    assert_eq!(pos, vec![(0, 0), (0, 1), (1, 0), (1, 1), (2, 0), (2, 1)]);
}

#[test]
fn resized_frame_is_full_sync() {
    let a = solid(128, 128, 0);
    let b = solid(129, 128, 0);
    let cmds = diff_frames(&Some(a), &b);
    assert_eq!(cmds[0], ServerCommand::Resize { width: 129, height: 128 });
    assert_eq!(cmds.len(), 3);
}

#[test]
fn identical_frames_send_nothing() {
    let a = solid(300, 300, 5);
    assert!(diff_frames(&Some(a.clone()), &a).is_empty());
}

#[test]
fn only_changed_chunks_are_sent() {
    let a = solid(300, 300, 0);
    let mut b = a.clone();
    set_pixel(&mut b, 299, 130, [1, 0, 0, 0]);
    set_pixel(&mut b, 0, 0, [0, 0, 0, 1]);
    let cmds = diff_frames(&Some(a), &b);
    let mut pos = chunk_positions(&cmds);
    pos.sort();
    assert_eq!(pos, vec![(0, 0), (2, 1)]);
    assert_eq!(cmds.len(), 2);
}

#[test]
fn black_frame_then_top_left_change() {
    let a = solid(256, 256, 0);
    let mut sync = FrameSync::new();
    let cmds = sync.handle_frame(a.clone());
    assert_eq!(cmds[0], ServerCommand::Resize { width: 256, height: 256 });
    assert_eq!(cmds.len(), 5);
    for c in &cmds[1..] {
        match c {
            ServerCommand::ChunkData { data, .. } => assert_eq!(data.len(), 128 * 128 * 4),
            _ => panic!("unexpected resize"),
        }
    }
    let mut b = a.clone();
    for y in 0..128 {
        for x in 0..128 {
            set_pixel(&mut b, x, y, [255, 255, 255, 255]);
        }
    }
    let cmds = sync.handle_frame(b);
    assert_eq!(cmds.len(), 1);
    match &cmds[0] {
        ServerCommand::ChunkData { chunk_pos, data } => {
            assert_eq!(*chunk_pos, ChunkPos::new(0, 0));
            assert_eq!(data.len(), 128 * 128 * 4);
            assert!(data.iter().all(|&v| v == 255));
        }
        _ => panic!("expected chunk data"),
    }
}
