use enhanced_magic_string::chunk::{Chunk, ChunkList};

#[test]
fn each_next() {
    let mut list = ChunkList::new();
    let i1 = list.push(Chunk::new(0, 1, "a".into()));
    let i2 = list.push(Chunk::new(1, 2, "b".into()));
    let i3 = list.push(Chunk::new(2, 3, "c".into()));

    list.link(i1, i2);
    list.link(i2, i3);

    let mut result = vec![];

    for i in list.each_next(i1) {
        result.push(list.chunks[i].content.to_string());
    }

    assert_eq!(
        result,
        vec!["a".to_string(), "b".to_string(), "c".to_string()]
    );
}

#[test]
fn fresh_chunk_defaults() {
    let chunk = Chunk::new(3, 7, "span".into());
    assert_eq!(chunk.start, 3);
    assert_eq!(chunk.end, 7);
    assert_eq!(chunk.original, "span".to_string());
    assert_eq!(chunk.content, "span".to_string());
    assert_eq!(chunk.intro, "".to_string());
    assert_eq!(chunk.outro, "".to_string());
    assert!(!chunk.store_name);
    assert!(!chunk.edited);
    assert!(chunk.previous.is_none());
    assert!(chunk.next.is_none());
}

#[test]
fn rendering_concatenates_intro_content_outro() {
    let mut chunk = Chunk::new(0, 3, "mid".into());
    assert_eq!(chunk.to_string(), "mid".to_string());

    chunk.intro = "pre-".into();
    chunk.outro = "-post".into();
    chunk.content = "body".into();
    chunk.edited = true;
    assert_eq!(chunk.to_string(), "pre-body-post".to_string());
    // Repeated calls with no intervening mutation return the same text.
    assert_eq!(chunk.to_string(), "pre-body-post".to_string());
}

#[test]
fn each_next_from_middle_visits_suffix() {
    let mut list = ChunkList::new();
    let i1 = list.push(Chunk::new(0, 1, "a".into()));
    let i2 = list.push(Chunk::new(1, 2, "b".into()));
    let i3 = list.push(Chunk::new(2, 3, "c".into()));
    let i4 = list.push(Chunk::new(3, 4, "d".into()));

    list.link(i1, i2);
    list.link(i2, i3);
    list.link(i3, i4);

    assert_eq!(list.each_next(i1), vec![i1, i2, i3, i4]);
    assert_eq!(list.each_next(i2), vec![i2, i3, i4]);
    assert_eq!(list.each_next(i3), vec![i3, i4]);
}

#[test]
fn each_next_from_last_visits_one_chunk() {
    let mut list = ChunkList::new();
    let i1 = list.push(Chunk::new(0, 1, "a".into()));
    let i2 = list.push(Chunk::new(1, 2, "b".into()));
    list.link(i1, i2);

    assert_eq!(list.each_next(i2), vec![i2]);

    // An unlinked, single chunk is its own last chunk.
    let mut lone = ChunkList::new();
    let only = lone.push(Chunk::new(0, 5, "alone".into()));
    assert_eq!(lone.each_next(only), vec![only]);
}

#[test]
fn next_and_previous_single_step() {
    let mut list = ChunkList::new();
    let i1 = list.push(Chunk::new(0, 1, "a".into()));
    let i2 = list.push(Chunk::new(1, 2, "b".into()));
    list.link(i1, i2);

    assert_eq!(list.next(i1).map(|c| c.content.to_string()), Some("b".to_string()));
    assert!(list.next(i2).is_none());
    assert_eq!(list.previous(i2).map(|c| c.content.to_string()), Some("a".to_string()));
    assert!(list.previous(i1).is_none());
}

#[test]
fn content_mutation_is_independent() {
    let mut list = ChunkList::new();
    let i1 = list.push(Chunk::new(0, 1, "a".into()));
    let i2 = list.push(Chunk::new(1, 2, "b".into()));
    list.link(i1, i2);

    list.set_content(i1, "A!".into());

    // The edited chunk keeps its original snapshot.
    assert_eq!(list.chunks[i1].content, "A!".to_string());
    assert_eq!(list.chunks[i1].original, "a".to_string());
    // The neighbour is untouched.
    assert_eq!(list.chunks[i2].content, "b".to_string());
    assert_eq!(list.chunks[i2].original, "b".to_string());
}

#[test]
fn assemble_unedited_list() {
    let mut list = ChunkList::new();
    let i1 = list.push(Chunk::new(0, 1, "a".into()));
    let i2 = list.push(Chunk::new(1, 2, "b".into()));
    let i3 = list.push(Chunk::new(2, 3, "c".into()));
    list.link(i1, i2);
    list.link(i2, i3);

    let contents: Vec<String> = list
        .each_next(i1)
        .into_iter()
        .map(|i| list.chunks[i].content.to_string())
        .collect();
    assert_eq!(
        contents,
        vec!["a".to_string(), "b".to_string(), "c".to_string()]
    );

    assert_eq!(list.assemble_from(i1), "abc".to_string());
}

#[test]
fn assemble_after_editing_middle_chunk() {
    let mut list = ChunkList::new();
    let i1 = list.push(Chunk::new(0, 1, "a".into()));
    let i2 = list.push(Chunk::new(1, 2, "b".into()));
    let i3 = list.push(Chunk::new(2, 3, "c".into()));
    list.link(i1, i2);
    list.link(i2, i3);

    list.chunks[i2].intro = "[".into();
    list.chunks[i2].outro = "]".into();
    list.set_content(i2, "B".into());
    list.chunks[i2].edited = true;

    assert_eq!(list.assemble_from(i1), "a[B]c".to_string());

    // The neighbours are unaffected by the edit.
    assert_eq!(list.chunks[i1].to_string(), "a".to_string());
    assert_eq!(list.chunks[i3].to_string(), "c".to_string());
    assert_eq!(list.chunks[i1].original, "a".to_string());
    assert_eq!(list.chunks[i3].original, "c".to_string());
}
