//! The bytes of announcements of files, and of the clipboard.
use crate::protocol::objects::{
    ClipboardBundle, ClipboardFile, ClipboardImage, ClipboardItem, ClipboardText,
    FileTransferControl, FileTransferGroup, FileTransferManifest,
};
use crate::wire::{
    begins, decode, encode, lemma_after_number, lemma_append, lemma_none_begins,
    lemma_rest_begins, put_bytes, put_number, reads, Bytes, Wire, WireError,
};
use vstd::prelude::*;

verus! {

/// What is sent of `FileTransferGroup`.
pub ghost struct FileGroup {
    pub group_id: u64,
    pub file_index: u32,
    pub file_count: u32,
    pub relative_path: Seq<char>,
    pub group_total_size_bytes: u64,
    pub group_checksum_crc32: u32,
}

/// The fields of `FileTransferGroup`, in the order in which they are sent.
pub type FileTransferGroupFields = (u64, (u32, (u32, (String, (u64, u32)))));

impl FileTransferGroup {
    pub open spec fn parts(m: FileGroup) -> <FileTransferGroupFields as Wire>::Model {
        (m.group_id, (m.file_index, (m.file_count, (m.relative_path, (m.group_total_size_bytes,
            m.group_checksum_crc32)))))
    }
}

impl Wire for FileTransferGroup {
    type Model = FileGroup;

    open spec fn model(&self) -> FileGroup {
        FileGroup {
            group_id: self.group_id,
            file_index: self.file_index,
            file_count: self.file_count,
            relative_path: self.relative_path@,
            group_total_size_bytes: self.group_total_size_bytes,
            group_checksum_crc32: self.group_checksum_crc32,
        }
    }

    open spec fn fits(m: FileGroup) -> bool {
        FileTransferGroupFields::fits(Self::parts(m))
    }

    open spec fn wire(m: FileGroup) -> Seq<u8> {
        FileTransferGroupFields::wire(Self::parts(m))
    }

    proof fn unique(a: FileGroup, b: FileGroup, s: Seq<u8>, t: Seq<u8>) {
        FileTransferGroupFields::unique(Self::parts(a), Self::parts(b), s, t);
    }

    fn put(&self, out: &mut Vec<u8>) {
        let ghost s0 = out@;
        self.group_id.put(out);
        let ghost s1 = out@;
        self.file_index.put(out);
        let ghost s2 = out@;
        self.file_count.put(out);
        let ghost s3 = out@;
        self.relative_path.put(out);
        let ghost s4 = out@;
        self.group_total_size_bytes.put(out);
        self.group_checksum_crc32.put(out);
        proof {
            let row = u32::wire(self.group_checksum_crc32.model());
            lemma_append(s4, u64::wire(self.group_total_size_bytes.model()), row);
            let row = u64::wire(self.group_total_size_bytes.model()) + row;
            lemma_append(s3, String::wire(self.relative_path.model()), row);
            let row = String::wire(self.relative_path.model()) + row;
            lemma_append(s2, u32::wire(self.file_count.model()), row);
            let row = u32::wire(self.file_count.model()) + row;
            lemma_append(s1, u32::wire(self.file_index.model()), row);
            let row = u32::wire(self.file_index.model()) + row;
            lemma_append(s0, u64::wire(self.group_id.model()), row);
        }
    }

    fn take(data: &[u8], from: usize) -> (r: Result<(FileTransferGroup, usize), WireError>) {
        match FileTransferGroupFields::take(data, from) {
            Ok((fields, to)) => {
                let (group_id, (file_index, (file_count, (relative_path, (group_total_size_bytes,
                    group_checksum_crc32))))) = fields;
                Ok((FileTransferGroup { group_id, file_index, file_count, relative_path,
                    group_total_size_bytes, group_checksum_crc32 }, to))
            },
            Err(e) => {
                proof {
                    assert forall|m: FileGroup| Self::fits(m) implies !begins(
                        data@.subrange(from as int, data@.len() as int),
                        #[trigger] Self::wire(m),
                    ) by {
                        assert(FileTransferGroupFields::fits(Self::parts(m)));
                    }
                }
                Err(e)
            },
        }
    }
}

/// What is sent of `FileTransferManifest`.
pub ghost struct Manifest {
    pub transfer_id: u64,
    pub file_object_id: u64,
    pub name: Seq<char>,
    pub group: Option<FileGroup>,
    pub mime_type: Option<Seq<char>>,
    pub size_bytes: u64,
    pub chunk_payload_len: u32,
    pub checksum_crc32: u32,
}

/// The fields of `FileTransferManifest`, in the order in which they are sent.
pub type FileTransferManifestFields = (u64, (u64, (String, (Option<FileTransferGroup>,
    (Option<String>, (u64, (u32, u32)))))));

impl FileTransferManifest {
    pub open spec fn parts(m: Manifest) -> <FileTransferManifestFields as Wire>::Model {
        (m.transfer_id, (m.file_object_id, (m.name, (m.group, (m.mime_type, (m.size_bytes,
            (m.chunk_payload_len, m.checksum_crc32)))))))
    }
}

impl Wire for FileTransferManifest {
    type Model = Manifest;

    open spec fn model(&self) -> Manifest {
        Manifest {
            transfer_id: self.transfer_id,
            file_object_id: self.file_object_id,
            name: self.name@,
            group: self.group.model(),
            mime_type: self.mime_type.model(),
            size_bytes: self.size_bytes,
            chunk_payload_len: self.chunk_payload_len,
            checksum_crc32: self.checksum_crc32,
        }
    }

    open spec fn fits(m: Manifest) -> bool {
        FileTransferManifestFields::fits(Self::parts(m))
    }

    open spec fn wire(m: Manifest) -> Seq<u8> {
        FileTransferManifestFields::wire(Self::parts(m))
    }

    proof fn unique(a: Manifest, b: Manifest, s: Seq<u8>, t: Seq<u8>) {
        FileTransferManifestFields::unique(Self::parts(a), Self::parts(b), s, t);
    }

    fn put(&self, out: &mut Vec<u8>) {
        let ghost s0 = out@;
        self.transfer_id.put(out);
        let ghost s1 = out@;
        self.file_object_id.put(out);
        let ghost s2 = out@;
        self.name.put(out);
        let ghost s3 = out@;
        self.group.put(out);
        let ghost s4 = out@;
        self.mime_type.put(out);
        let ghost s5 = out@;
        self.size_bytes.put(out);
        let ghost s6 = out@;
        self.chunk_payload_len.put(out);
        self.checksum_crc32.put(out);
        proof {
            let row = u32::wire(self.checksum_crc32.model());
            lemma_append(s6, u32::wire(self.chunk_payload_len.model()), row);
            let row = u32::wire(self.chunk_payload_len.model()) + row;
            lemma_append(s5, u64::wire(self.size_bytes.model()), row);
            let row = u64::wire(self.size_bytes.model()) + row;
            lemma_append(s4, <Option<String>>::wire(self.mime_type.model()), row);
            let row = <Option<String>>::wire(self.mime_type.model()) + row;
            lemma_append(s3, <Option<FileTransferGroup>>::wire(self.group.model()), row);
            let row = <Option<FileTransferGroup>>::wire(self.group.model()) + row;
            lemma_append(s2, String::wire(self.name.model()), row);
            let row = String::wire(self.name.model()) + row;
            lemma_append(s1, u64::wire(self.file_object_id.model()), row);
            let row = u64::wire(self.file_object_id.model()) + row;
            lemma_append(s0, u64::wire(self.transfer_id.model()), row);
        }
    }

    fn take(data: &[u8], from: usize) -> (r: Result<(FileTransferManifest, usize), WireError>) {
        match FileTransferManifestFields::take(data, from) {
            Ok((fields, to)) => {
                let (transfer_id, (file_object_id, (name, (group, (mime_type, (size_bytes,
                    (chunk_payload_len, checksum_crc32))))))) = fields;
                Ok((FileTransferManifest { transfer_id, file_object_id, name, group, mime_type,
                    size_bytes, chunk_payload_len, checksum_crc32 }, to))
            },
            Err(e) => {
                proof {
                    assert forall|m: Manifest| Self::fits(m) implies !begins(
                        data@.subrange(from as int, data@.len() as int),
                        #[trigger] Self::wire(m),
                    ) by {
                        assert(FileTransferManifestFields::fits(Self::parts(m)));
                    }
                }
                Err(e)
            },
        }
    }
}

impl FileTransferManifest {
    /// The bytes of an announcement.
    pub fn encode(&self) -> (r: Result<Vec<u8>, WireError>)
        ensures
            r is Ok,
            Self::fits(self.model()),
            r->Ok_0@ == Self::wire(self.model()),
    {
        encode(self)
    }

    /// Reads an announcement from the start of `data`; what follows it is let be.
    pub fn decode(data: &[u8]) -> (r: Result<Self, WireError>)
        ensures
            reads(data@, r),
    {
        decode(data)
    }
}

impl FileTransferControl {
    /// The number of the variant.
    pub open spec fn number(m: FileTransferControl) -> u32 {
        match m {
            FileTransferControl::CancelTransfer { .. } => 0,
            FileTransferControl::CancelGroup { .. } => 1,
        }
    }

    /// What stands behind the number.
    pub open spec fn body(m: FileTransferControl) -> Seq<u8> {
        match m {
            FileTransferControl::CancelTransfer { transfer_id, file_object_id } => <(u64,
                u64)>::wire((transfer_id, file_object_id)),
            FileTransferControl::CancelGroup { group_id } => u64::wire(group_id),
        }
    }
}

impl Wire for FileTransferControl {
    type Model = FileTransferControl;

    open spec fn model(&self) -> FileTransferControl {
        *self
    }

    open spec fn fits(m: FileTransferControl) -> bool {
        match m {
            FileTransferControl::CancelTransfer { transfer_id, file_object_id } => <(u64,
                u64)>::fits((transfer_id, file_object_id)),
            FileTransferControl::CancelGroup { group_id } => u64::fits(group_id),
        }
    }

    open spec fn wire(m: FileTransferControl) -> Seq<u8> {
        u32::wire(Self::number(m)) + Self::body(m)
    }

    proof fn unique(a: FileTransferControl, b: FileTransferControl, s: Seq<u8>, t: Seq<u8>) {
        lemma_after_number::<u32>(
            Self::number(a),
            Self::number(b),
            Self::body(a),
            Self::body(b),
            s,
            t,
        );
        match (a, b) {
            (FileTransferControl::CancelTransfer { transfer_id: transfer_id_a,
                file_object_id: file_object_id_a },
                FileTransferControl::CancelTransfer { transfer_id: transfer_id_b,
                file_object_id: file_object_id_b }) => {
                <(u64, u64)>::unique((transfer_id_a, file_object_id_a), (transfer_id_b,
                    file_object_id_b), s, t);
            },
            (FileTransferControl::CancelGroup { group_id: group_id_a },
                FileTransferControl::CancelGroup { group_id: group_id_b }) => {
                u64::unique(group_id_a, group_id_b, s, t);
            },
            _ => {},
        }
    }

    fn put(&self, out: &mut Vec<u8>) {
        match self {
            FileTransferControl::CancelTransfer { transfer_id, file_object_id } => {
                let ghost s0 = out@;
                put_number(0, out);
                let ghost s1 = out@;
                transfer_id.put(out);
                file_object_id.put(out);
                proof {
                    let row = u64::wire(file_object_id.model());
                    lemma_append(s1, u64::wire(transfer_id.model()), row);
                    let row = u64::wire(transfer_id.model()) + row;
                    lemma_append(s0, u32::wire(0), row);
                }
            },
            FileTransferControl::CancelGroup { group_id } => {
                let ghost s0 = out@;
                put_number(1, out);
                group_id.put(out);
                proof {
                    let row = u64::wire(group_id.model());
                    lemma_append(s0, u32::wire(1), row);
                }
            },
        }
    }

    fn take(data: &[u8], from: usize) -> (r: Result<(FileTransferControl, usize), WireError>) {
        let ghost tail = data@.subrange(from as int, data@.len() as int);
        let (number, start) = match u32::take(data, from) {
            Ok((number, start)) => (number, start),
            Err(e) => {
                proof {
                    assert forall|m: FileTransferControl| Self::fits(m) implies !begins(
                        tail,
                        #[trigger] Self::wire(m),
                    ) by {
                        lemma_none_begins::<u32>(tail, Self::number(m), Self::body(m));
                    }
                }
                return Err(e);
            },
        };
        proof {
            assert forall|m: FileTransferControl|
                Self::fits(m) && begins(tail, #[trigger] Self::wire(m)) implies Self::number(m)
                == number && begins(
                data@.subrange(start as int, data@.len() as int),
                Self::body(m),
            ) by {
                lemma_rest_begins::<u32>(
                    data@,
                    from as int,
                    start as int,
                    number,
                    Self::number(m),
                    Self::body(m),
                );
            }
        }
        let (message, to) = match number {
            0 => match <(u64, u64)>::take(data, start) {
                Ok(((transfer_id, file_object_id),
                    to)) => (FileTransferControl::CancelTransfer { transfer_id, file_object_id },
                    to),
                Err(e) => {
                    return Err(e);
                },
            },
            1 => match u64::take(data, start) {
                Ok((group_id, to)) => (FileTransferControl::CancelGroup { group_id }, to),
                Err(e) => {
                    return Err(e);
                },
            },
            _ => {
                return Err(WireError);
            },
        };
        proof {
            assert(data@.subrange(from as int, to as int) =~= data@.subrange(
                from as int,
                start as int,
            ) + data@.subrange(start as int, to as int));
        }
        Ok((message, to))
    }
}

impl FileTransferControl {
    /// The bytes of a command.
    pub fn encode(&self) -> (r: Result<Vec<u8>, WireError>)
        ensures
            r is Ok,
            Self::fits(self.model()),
            r->Ok_0@ == Self::wire(self.model()),
    {
        encode(self)
    }

    /// Reads a command from the start of `data`; what follows it is let be.
    pub fn decode(data: &[u8]) -> (r: Result<Self, WireError>)
        ensures
            reads(data@, r),
    {
        decode(data)
    }
}

/// What is sent of `ClipboardText`.
pub ghost struct TextItem {
    pub text: Seq<char>,
}

impl Wire for ClipboardText {
    type Model = TextItem;

    open spec fn model(&self) -> TextItem {
        TextItem {
            text: self.text@,
        }
    }

    open spec fn fits(m: TextItem) -> bool {
        String::fits(m.text)
    }

    open spec fn wire(m: TextItem) -> Seq<u8> {
        String::wire(m.text)
    }

    proof fn unique(a: TextItem, b: TextItem, s: Seq<u8>, t: Seq<u8>) {
        String::unique(a.text, b.text, s, t);
    }

    fn put(&self, out: &mut Vec<u8>) {
        self.text.put(out);
    }

    fn take(data: &[u8], from: usize) -> (r: Result<(ClipboardText, usize), WireError>) {
        match String::take(data, from) {
            Ok((fields, to)) => {
                let text = fields;
                Ok((ClipboardText { text }, to))
            },
            Err(e) => {
                proof {
                    assert forall|m: TextItem| Self::fits(m) implies !begins(
                        data@.subrange(from as int, data@.len() as int),
                        #[trigger] Self::wire(m),
                    ) by {
                        assert(String::fits(m.text));
                    }
                }
                Err(e)
            },
        }
    }
}

/// What is sent of `ClipboardImage`.
pub ghost struct ImageItem {
    pub mime_type: Seq<char>,
    pub width: Option<u32>,
    pub height: Option<u32>,
    pub bytes: Seq<u8>,
}

/// The fields of `ClipboardImage`, in the order in which they are sent.
pub type ClipboardImageFields = (String, (Option<u32>, (Option<u32>, Bytes)));

impl ClipboardImage {
    pub open spec fn parts(m: ImageItem) -> <ClipboardImageFields as Wire>::Model {
        (m.mime_type, (m.width, (m.height, m.bytes)))
    }
}

impl Wire for ClipboardImage {
    type Model = ImageItem;

    open spec fn model(&self) -> ImageItem {
        ImageItem {
            mime_type: self.mime_type@,
            width: self.width,
            height: self.height,
            bytes: self.bytes@,
        }
    }

    open spec fn fits(m: ImageItem) -> bool {
        ClipboardImageFields::fits(Self::parts(m))
    }

    open spec fn wire(m: ImageItem) -> Seq<u8> {
        ClipboardImageFields::wire(Self::parts(m))
    }

    proof fn unique(a: ImageItem, b: ImageItem, s: Seq<u8>, t: Seq<u8>) {
        ClipboardImageFields::unique(Self::parts(a), Self::parts(b), s, t);
    }

    fn put(&self, out: &mut Vec<u8>) {
        let ghost s0 = out@;
        self.mime_type.put(out);
        let ghost s1 = out@;
        self.width.put(out);
        let ghost s2 = out@;
        self.height.put(out);
        put_bytes(&self.bytes, out);
        proof {
            let row = Bytes::wire(self.bytes@);
            lemma_append(s2, <Option<u32>>::wire(self.height.model()), row);
            let row = <Option<u32>>::wire(self.height.model()) + row;
            lemma_append(s1, <Option<u32>>::wire(self.width.model()), row);
            let row = <Option<u32>>::wire(self.width.model()) + row;
            lemma_append(s0, String::wire(self.mime_type.model()), row);
        }
    }

    fn take(data: &[u8], from: usize) -> (r: Result<(ClipboardImage, usize), WireError>) {
        match ClipboardImageFields::take(data, from) {
            Ok((fields, to)) => {
                let (mime_type, (width, (height, bytes))) = fields;
                Ok((ClipboardImage { mime_type, width, height, bytes: bytes.0 }, to))
            },
            Err(e) => {
                proof {
                    assert forall|m: ImageItem| Self::fits(m) implies !begins(
                        data@.subrange(from as int, data@.len() as int),
                        #[trigger] Self::wire(m),
                    ) by {
                        assert(ClipboardImageFields::fits(Self::parts(m)));
                    }
                }
                Err(e)
            },
        }
    }
}

/// What is sent of `ClipboardFile`.
pub ghost struct FileItem {
    pub name: Seq<char>,
    pub mime_type: Option<Seq<char>>,
    pub bytes: Seq<u8>,
}

/// The fields of `ClipboardFile`, in the order in which they are sent.
pub type ClipboardFileFields = (String, (Option<String>, Bytes));

impl ClipboardFile {
    pub open spec fn parts(m: FileItem) -> <ClipboardFileFields as Wire>::Model {
        (m.name, (m.mime_type, m.bytes))
    }
}

impl Wire for ClipboardFile {
    type Model = FileItem;

    open spec fn model(&self) -> FileItem {
        FileItem {
            name: self.name@,
            mime_type: self.mime_type.model(),
            bytes: self.bytes@,
        }
    }

    open spec fn fits(m: FileItem) -> bool {
        ClipboardFileFields::fits(Self::parts(m))
    }

    open spec fn wire(m: FileItem) -> Seq<u8> {
        ClipboardFileFields::wire(Self::parts(m))
    }

    proof fn unique(a: FileItem, b: FileItem, s: Seq<u8>, t: Seq<u8>) {
        ClipboardFileFields::unique(Self::parts(a), Self::parts(b), s, t);
    }

    fn put(&self, out: &mut Vec<u8>) {
        let ghost s0 = out@;
        self.name.put(out);
        let ghost s1 = out@;
        self.mime_type.put(out);
        put_bytes(&self.bytes, out);
        proof {
            let row = Bytes::wire(self.bytes@);
            lemma_append(s1, <Option<String>>::wire(self.mime_type.model()), row);
            let row = <Option<String>>::wire(self.mime_type.model()) + row;
            lemma_append(s0, String::wire(self.name.model()), row);
        }
    }

    fn take(data: &[u8], from: usize) -> (r: Result<(ClipboardFile, usize), WireError>) {
        match ClipboardFileFields::take(data, from) {
            Ok((fields, to)) => {
                let (name, (mime_type, bytes)) = fields;
                Ok((ClipboardFile { name, mime_type, bytes: bytes.0 }, to))
            },
            Err(e) => {
                proof {
                    assert forall|m: FileItem| Self::fits(m) implies !begins(
                        data@.subrange(from as int, data@.len() as int),
                        #[trigger] Self::wire(m),
                    ) by {
                        assert(ClipboardFileFields::fits(Self::parts(m)));
                    }
                }
                Err(e)
            },
        }
    }
}

/// What is sent of `ClipboardItem`.
pub ghost enum Item {
    Text(TextItem),
    Image(ImageItem),
    File(FileItem),
}

impl ClipboardItem {
    /// The number of the variant.
    pub open spec fn number(m: Item) -> u32 {
        match m {
            Item::Text(_) => 0,
            Item::Image(_) => 1,
            Item::File(_) => 2,
        }
    }

    /// What stands behind the number.
    pub open spec fn body(m: Item) -> Seq<u8> {
        match m {
            Item::Text(value) => ClipboardText::wire(value),
            Item::Image(value) => ClipboardImage::wire(value),
            Item::File(value) => ClipboardFile::wire(value),
        }
    }
}

impl Wire for ClipboardItem {
    type Model = Item;

    open spec fn model(&self) -> Item {
        match self {
            ClipboardItem::Text(value) => Item::Text(value.model()),
            ClipboardItem::Image(value) => Item::Image(value.model()),
            ClipboardItem::File(value) => Item::File(value.model()),
        }
    }

    open spec fn fits(m: Item) -> bool {
        match m {
            Item::Text(value) => ClipboardText::fits(value),
            Item::Image(value) => ClipboardImage::fits(value),
            Item::File(value) => ClipboardFile::fits(value),
        }
    }

    open spec fn wire(m: Item) -> Seq<u8> {
        u32::wire(Self::number(m)) + Self::body(m)
    }

    proof fn unique(a: Item, b: Item, s: Seq<u8>, t: Seq<u8>) {
        lemma_after_number::<u32>(
            Self::number(a),
            Self::number(b),
            Self::body(a),
            Self::body(b),
            s,
            t,
        );
        match (a, b) {
            (Item::Text(value_a), Item::Text(value_b)) => {
                ClipboardText::unique(value_a, value_b, s, t);
            },
            (Item::Image(value_a), Item::Image(value_b)) => {
                ClipboardImage::unique(value_a, value_b, s, t);
            },
            (Item::File(value_a), Item::File(value_b)) => {
                ClipboardFile::unique(value_a, value_b, s, t);
            },
            _ => {},
        }
    }

    fn put(&self, out: &mut Vec<u8>) {
        match self {
            ClipboardItem::Text(value) => {
                let ghost s0 = out@;
                put_number(0, out);
                value.put(out);
                proof {
                    let row = ClipboardText::wire(value.model());
                    lemma_append(s0, u32::wire(0), row);
                }
            },
            ClipboardItem::Image(value) => {
                let ghost s0 = out@;
                put_number(1, out);
                value.put(out);
                proof {
                    let row = ClipboardImage::wire(value.model());
                    lemma_append(s0, u32::wire(1), row);
                }
            },
            ClipboardItem::File(value) => {
                let ghost s0 = out@;
                put_number(2, out);
                value.put(out);
                proof {
                    let row = ClipboardFile::wire(value.model());
                    lemma_append(s0, u32::wire(2), row);
                }
            },
        }
    }

    fn take(data: &[u8], from: usize) -> (r: Result<(ClipboardItem, usize), WireError>) {
        let ghost tail = data@.subrange(from as int, data@.len() as int);
        let (number, start) = match u32::take(data, from) {
            Ok((number, start)) => (number, start),
            Err(e) => {
                proof {
                    assert forall|m: Item| Self::fits(m) implies !begins(
                        tail,
                        #[trigger] Self::wire(m),
                    ) by {
                        lemma_none_begins::<u32>(tail, Self::number(m), Self::body(m));
                    }
                }
                return Err(e);
            },
        };
        proof {
            assert forall|m: Item|
                Self::fits(m) && begins(tail, #[trigger] Self::wire(m)) implies Self::number(m)
                == number && begins(
                data@.subrange(start as int, data@.len() as int),
                Self::body(m),
            ) by {
                lemma_rest_begins::<u32>(
                    data@,
                    from as int,
                    start as int,
                    number,
                    Self::number(m),
                    Self::body(m),
                );
            }
        }
        let (message, to) = match number {
            0 => match ClipboardText::take(data, start) {
                Ok((value, to)) => (ClipboardItem::Text(value), to),
                Err(e) => {
                    return Err(e);
                },
            },
            1 => match ClipboardImage::take(data, start) {
                Ok((value, to)) => (ClipboardItem::Image(value), to),
                Err(e) => {
                    return Err(e);
                },
            },
            2 => match ClipboardFile::take(data, start) {
                Ok((value, to)) => (ClipboardItem::File(value), to),
                Err(e) => {
                    return Err(e);
                },
            },
            _ => {
                return Err(WireError);
            },
        };
        proof {
            assert(data@.subrange(from as int, to as int) =~= data@.subrange(
                from as int,
                start as int,
            ) + data@.subrange(start as int, to as int));
        }
        Ok((message, to))
    }
}

/// What is sent of `ClipboardBundle`.
pub ghost struct Bundle {
    pub bundle_id: u64,
    pub items: Seq<Item>,
}

/// The fields of `ClipboardBundle`, in the order in which they are sent.
pub type ClipboardBundleFields = (u64, Vec<ClipboardItem>);

impl ClipboardBundle {
    pub open spec fn parts(m: Bundle) -> <ClipboardBundleFields as Wire>::Model {
        (m.bundle_id, m.items)
    }
}

impl Wire for ClipboardBundle {
    type Model = Bundle;

    open spec fn model(&self) -> Bundle {
        Bundle {
            bundle_id: self.bundle_id,
            items: self.items.model(),
        }
    }

    open spec fn fits(m: Bundle) -> bool {
        ClipboardBundleFields::fits(Self::parts(m))
    }

    open spec fn wire(m: Bundle) -> Seq<u8> {
        ClipboardBundleFields::wire(Self::parts(m))
    }

    proof fn unique(a: Bundle, b: Bundle, s: Seq<u8>, t: Seq<u8>) {
        ClipboardBundleFields::unique(Self::parts(a), Self::parts(b), s, t);
    }

    fn put(&self, out: &mut Vec<u8>) {
        let ghost s0 = out@;
        self.bundle_id.put(out);
        self.items.put(out);
        proof {
            let row = <Vec<ClipboardItem>>::wire(self.items.model());
            lemma_append(s0, u64::wire(self.bundle_id.model()), row);
        }
    }

    fn take(data: &[u8], from: usize) -> (r: Result<(ClipboardBundle, usize), WireError>) {
        match ClipboardBundleFields::take(data, from) {
            Ok((fields, to)) => {
                let (bundle_id, items) = fields;
                Ok((ClipboardBundle { bundle_id, items }, to))
            },
            Err(e) => {
                proof {
                    assert forall|m: Bundle| Self::fits(m) implies !begins(
                        data@.subrange(from as int, data@.len() as int),
                        #[trigger] Self::wire(m),
                    ) by {
                        assert(ClipboardBundleFields::fits(Self::parts(m)));
                    }
                }
                Err(e)
            },
        }
    }
}

impl ClipboardBundle {
    /// The bytes of a bundle.
    pub fn encode(&self) -> (r: Result<Vec<u8>, WireError>)
        ensures
            r is Ok,
            Self::fits(self.model()),
            r->Ok_0@ == Self::wire(self.model()),
    {
        encode(self)
    }

    /// Reads a bundle from the start of `data`; what follows it is let be.
    pub fn decode(data: &[u8]) -> (r: Result<Self, WireError>)
        ensures
            reads(data@, r),
    {
        decode(data)
    }
}

} // verus!
