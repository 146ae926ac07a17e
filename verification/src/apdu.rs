//! The decisions of the application's command loop: which instruction a
//! command byte names, what each command asks for, and how the chunks of a
//! transaction to sign are gathered.

use vstd::prelude::*;

verus! {

/// Capacity of the buffer that gathers the chunks of a message to sign.
pub const DATA_BUFFER_MAX_SIZE: usize = 1280;

/// Largest chunk a client sends at once.
pub const DATA_CHUNK_SIZE: u8 = 250;

/// Bytes of the seed that come before the raw transaction in a message
/// to sign.
pub const SEED_LENGTH: usize = 32;

/// The instructions the application answers.
#[derive(Clone, Copy, Debug, PartialEq, Eq, Structural)]
pub enum Ins {
    GetPubkey,
    Sign,
    Menu,
    ShowPrivateKey,
    Exit,
}

/// The instruction a command byte names; an unknown byte names
/// `GetPubkey`.
pub open spec fn ins_of(ins: u8) -> Ins {
    if ins == 2 {
        Ins::GetPubkey
    } else if ins == 3 {
        Ins::Sign
    } else if ins == 4 {
        Ins::Menu
    } else if ins == 0xfe {
        Ins::ShowPrivateKey
    } else if ins == 0xff {
        Ins::Exit
    } else {
        Ins::GetPubkey
    }
}

impl From<u8> for Ins {
    fn from(ins: u8) -> (r: Ins) {
        match ins {
            2 => Ins::GetPubkey,
            3 => Ins::Sign,
            4 => Ins::Menu,
            0xfe => Ins::ShowPrivateKey,
            0xff => Ins::Exit,
            _ => Ins::GetPubkey,
        }
    }
}

impl vstd::std_specs::convert::FromSpecImpl<u8> for Ins {
    open spec fn obeys_from_spec() -> bool {
        true
    }

    open spec fn from_spec(v: u8) -> Ins {
        ins_of(v)
    }
}

/// The status words with which a command is refused.
#[derive(Clone, Copy, Debug, PartialEq, Eq, Structural)]
pub enum StatusWord {
    /// The command carried no data.
    NothingReceived,
    /// The message to sign does not fit in the buffer.
    BadLen,
}

/// What a command asks of the application once it has been accepted.
#[derive(Clone, Copy, Debug, PartialEq, Eq, Structural)]
pub enum Command {
    /// Reply with the public key.
    SendPublicKey,
    /// Add the command's data to the message to sign, and sign it once the
    /// last chunk is in.
    ReadSignChunk,
    /// Show the menu.
    ShowMenu,
    /// Reply with the raw private key.
    SendPrivateKey,
    /// Leave the application.
    ExitApp,
}

/// The command an instruction stands for.
pub open spec fn command_of(ins: Ins) -> Command {
    match ins {
        Ins::GetPubkey => Command::SendPublicKey,
        Ins::Sign => Command::ReadSignChunk,
        Ins::Menu => Command::ShowMenu,
        Ins::ShowPrivateKey => Command::SendPrivateKey,
        Ins::Exit => Command::ExitApp,
    }
}

/// Accepts a command that received `rx` bytes: one that received nothing
/// is refused with `NothingReceived`, any other is carried out.
pub fn apdu_command(rx: usize, ins: Ins) -> (res: Result<Command, StatusWord>)
    ensures
        rx == 0 ==> res == Err::<Command, StatusWord>(StatusWord::NothingReceived),
        rx != 0 ==> res == Ok::<Command, StatusWord>(command_of(ins)),
{
    if rx == 0 {
        return Err(StatusWord::NothingReceived);
    }
    match ins {
        Ins::GetPubkey => Ok(Command::SendPublicKey),
        Ins::Sign => Ok(Command::ReadSignChunk),
        Ins::Menu => Ok(Command::ShowMenu),
        Ins::ShowPrivateKey => Ok(Command::SendPrivateKey),
        Ins::Exit => Ok(Command::ExitApp),
    }
}

/// The events of the main loop, as the loop needs them.
#[derive(Clone, Copy, Debug, PartialEq, Eq, Structural)]
pub enum Event {
    /// The right button was released.
    RightButtonRelease,
    /// A command arrived; its instruction byte was read with `Ins::from`.
    Command(Ins),
    /// Anything else.
    Other,
}

/// What the main loop does on an event.
#[derive(Clone, Copy, Debug, PartialEq, Eq, Structural)]
pub enum LoopStep {
    /// Leave the application.
    ExitApp,
    /// Handle the command and reply to it.
    Handle(Ins),
    /// Wait for the next event.
    Idle,
}

/// The main loop's decision on an event.
pub fn on_event(ev: Event) -> (step: LoopStep)
    ensures
        step == (match ev {
            Event::RightButtonRelease => LoopStep::ExitApp,
            Event::Command(ins) => LoopStep::Handle(ins),
            Event::Other => LoopStep::Idle,
        }),
{
    match ev {
        Event::RightButtonRelease => LoopStep::ExitApp,
        Event::Command(ins) => LoopStep::Handle(ins),
        Event::Other => LoopStep::Idle,
    }
}

/// The pages of the menu.
#[derive(Clone, Copy, Debug, PartialEq, Eq, Structural)]
pub enum MenuPage {
    /// "PubKey", "Infos", "Back", "Exit App".
    Main,
    /// "Copyright", "Authors", "Back".
    Infos,
}

/// What the menu does on a choice, besides moving between pages.
#[derive(Clone, Copy, Debug, PartialEq, Eq, Structural)]
pub enum MenuAction {
    Nothing,
    ShowPubkey,
    ShowCopyright,
    ShowAuthors,
    ExitApp,
}

/// The page shown after a choice (`None`: the menu is left) and the action
/// taken on it.
pub open spec fn menu_step_spec(page: MenuPage, choice: usize) -> (Option<MenuPage>, MenuAction) {
    match page {
        MenuPage::Main => if choice == 0 {
            (Some(MenuPage::Main), MenuAction::ShowPubkey)
        } else if choice == 1 {
            (Some(MenuPage::Infos), MenuAction::Nothing)
        } else if choice == 2 {
            (None, MenuAction::Nothing)
        } else if choice == 3 {
            (None, MenuAction::ExitApp)
        } else {
            (Some(MenuPage::Main), MenuAction::Nothing)
        },
        MenuPage::Infos => if choice == 0 {
            (Some(MenuPage::Infos), MenuAction::ShowCopyright)
        } else if choice == 1 {
            (Some(MenuPage::Infos), MenuAction::ShowAuthors)
        } else {
            (Some(MenuPage::Main), MenuAction::Nothing)
        },
    }
}

/// The menu's decision on the item chosen on a page.
pub fn menu_step(page: MenuPage, choice: usize) -> (res: (Option<MenuPage>, MenuAction))
    ensures
        res == menu_step_spec(page, choice),
{
    match page {
        MenuPage::Main => match choice {
            0 => (Some(MenuPage::Main), MenuAction::ShowPubkey),
            1 => (Some(MenuPage::Infos), MenuAction::Nothing),
            2 => (None, MenuAction::Nothing),
            3 => (None, MenuAction::ExitApp),
            _ => (Some(MenuPage::Main), MenuAction::Nothing),
        },
        MenuPage::Infos => match choice {
            0 => (Some(MenuPage::Infos), MenuAction::ShowCopyright),
            1 => (Some(MenuPage::Infos), MenuAction::ShowAuthors),
            _ => (Some(MenuPage::Main), MenuAction::Nothing),
        },
    }
}

/// What happens in the signing flow.
#[derive(Clone, Copy, Debug, PartialEq, Eq, Structural)]
pub enum SignEvent {
    /// A chunk of the message was read; `true` when it was the last one.
    ChunkRead(bool),
    /// The user answered the "Sign ?" prompt; `true` when approved.
    Answered(bool),
}

/// What the signing flow does next.
#[derive(Clone, Copy, Debug, PartialEq, Eq, Structural)]
pub enum SignAction {
    /// Wait for the next chunk.
    WaitForChunks,
    /// Show the transaction's hash and ask the user to approve it.
    ReviewMessage,
    /// Sign the message and reply with the signature.
    SignMessage,
    /// Tell the user that signing was cancelled, and reply without a
    /// signature.
    Cancel,
}

/// The signing flow's decision: the message is reviewed only once it is
/// complete, and signed only when the user approves it.
pub fn sign_step(event: SignEvent) -> (action: SignAction)
    ensures
        action == (match event {
            SignEvent::ChunkRead(complete) => if complete {
                SignAction::ReviewMessage
            } else {
                SignAction::WaitForChunks
            },
            SignEvent::Answered(approved) => if approved {
                SignAction::SignMessage
            } else {
                SignAction::Cancel
            },
        }),
{
    match event {
        SignEvent::ChunkRead(complete) => if complete {
            SignAction::ReviewMessage
        } else {
            SignAction::WaitForChunks
        },
        SignEvent::Answered(approved) => if approved {
            SignAction::SignMessage
        } else {
            SignAction::Cancel
        },
    }
}

/// The raw transaction in a message to sign: what follows the seed.
pub fn transaction_bytes(message: &[u8]) -> (txn: &[u8])
    requires
        message@.len() >= SEED_LENGTH,
    ensures
        txn@ == message@.subrange(SEED_LENGTH as int, message@.len() as int),
{
    vstd::slice::slice_subrange(message, SEED_LENGTH, message.len())
}

/// `contents` followed by `chunk`, cut at the buffer's capacity.
pub open spec fn appended(contents: Seq<u8>, chunk: Seq<u8>) -> Seq<u8> {
    let all = contents + chunk;
    if all.len() <= DATA_BUFFER_MAX_SIZE {
        all
    } else {
        all.take(DATA_BUFFER_MAX_SIZE as int)
    }
}

/// What appending a chunk answers: whether it was the last one
/// (`p2 == 1`), or `BadLen` when it did not fit.
pub open spec fn append_result(contents: Seq<u8>, p2: u8, chunk: Seq<u8>) -> Result<
    bool,
    StatusWord,
> {
    if contents.len() + chunk.len() <= DATA_BUFFER_MAX_SIZE {
        Ok(p2 == 1)
    } else {
        Err(StatusWord::BadLen)
    }
}

/// What the buffer holds when a chunk starts: nothing for the first chunk
/// (`p1 == 0`), what it held otherwise.
pub open spec fn before_chunk(contents: Seq<u8>, p1: u8) -> Seq<u8> {
    if p1 == 0 {
        Seq::<u8>::empty()
    } else {
        contents
    }
}

/// What the buffer holds after a chunk: the chunk is appended to what was
/// there, or to nothing for the first chunk (`p1 == 0`), and cut at the
/// buffer's capacity.
pub open spec fn after_chunk(contents: Seq<u8>, p1: u8, chunk: Seq<u8>) -> Seq<u8> {
    appended(before_chunk(contents, p1), chunk)
}

/// The storage on which a chunk is written: zeroed for the first chunk.
pub open spec fn storage_before_chunk(storage: Seq<u8>, p1: u8) -> Seq<u8> {
    if p1 == 0 {
        Seq::new(DATA_BUFFER_MAX_SIZE as nat, |_i: int| 0u8)
    } else {
        storage
    }
}

/// Whatever the chunk, the buffer never holds more than its capacity.
pub proof fn lemma_after_chunk_bounded(contents: Seq<u8>, p1: u8, chunk: Seq<u8>)
    ensures
        after_chunk(contents, p1, chunk).len() <= DATA_BUFFER_MAX_SIZE,
{
}

/// What reading a chunk answers: whether it was the last one (`p2 == 1`),
/// or `BadLen` when it did not fit.
pub open spec fn chunk_result(contents: Seq<u8>, p1: u8, p2: u8, chunk: Seq<u8>) -> Result<
    bool,
    StatusWord,
> {
    append_result(before_chunk(contents, p1), p2, chunk)
}

/// The buffer's contents after reading `chunks` in turn, each a pair of
/// `p1` and data, starting from `start`.
pub open spec fn read_all(start: Seq<u8>, chunks: Seq<(u8, Seq<u8>)>) -> Seq<u8>
    decreases chunks.len(),
{
    if chunks.len() == 0 {
        start
    } else {
        after_chunk(read_all(start, chunks.drop_last()), chunks.last().0, chunks.last().1)
    }
}

/// The data of `chunks`, one after the other.
pub open spec fn concat_chunks(chunks: Seq<(u8, Seq<u8>)>) -> Seq<u8>
    decreases chunks.len(),
{
    if chunks.len() == 0 {
        Seq::<u8>::empty()
    } else {
        concat_chunks(chunks.drop_last()) + chunks.last().1
    }
}

/// The data of a prefix of the chunks is no longer than that of all.
pub proof fn lemma_concat_prefix_len(chunks: Seq<(u8, Seq<u8>)>, i: int)
    requires
        0 <= i <= chunks.len(),
    ensures
        concat_chunks(chunks.take(i)).len() <= concat_chunks(chunks).len(),
    decreases chunks.len(),
{
    if i < chunks.len() {
        assert(chunks.drop_last().take(i) =~= chunks.take(i));
        lemma_concat_prefix_len(chunks.drop_last(), i);
    } else {
        assert(chunks.take(i) =~= chunks);
    }
}

/// A message sent in chunks, the first numbered 0 and the others not, is
/// gathered whole and in order, whatever the buffer held before, as long
/// as it fits; and no chunk of it is refused.
pub proof fn lemma_chunks_concatenate(start: Seq<u8>, chunks: Seq<(u8, Seq<u8>)>)
    requires
        chunks.len() > 0,
        chunks[0].0 == 0,
        forall|i: int| 0 < i < chunks.len() ==> #[trigger] chunks[i].0 != 0,
        concat_chunks(chunks).len() <= DATA_BUFFER_MAX_SIZE,
    ensures
        read_all(start, chunks) == concat_chunks(chunks),
        forall|i: int, p2: u8|
            0 <= i < chunks.len() ==> #[trigger] chunk_result(
                read_all(start, chunks.take(i)),
                chunks[i].0,
                p2,
                chunks[i].1,
            ) is Ok,
    decreases chunks.len(),
{
    let prev = chunks.drop_last();
    if chunks.len() == 1 {
        assert(prev.len() == 0);
        assert(concat_chunks(prev) =~= Seq::<u8>::empty());
        assert(Seq::<u8>::empty() + chunks.last().1 =~= chunks.last().1);
        assert(chunks.take(0) =~= prev);
    } else {
        assert forall|i: int| 0 < i < prev.len() implies #[trigger] prev[i].0 != 0 by {
            assert(prev[i] == chunks[i]);
        }
        lemma_concat_prefix_len(chunks, prev.len() as int);
        assert(chunks.take(prev.len() as int) =~= prev);
        lemma_chunks_concatenate(start, prev);
        assert(chunks.last().0 != 0) by {
            assert(chunks[chunks.len() - 1].0 != 0);
        }
        assert forall|i: int, p2: u8| 0 <= i < chunks.len() implies #[trigger] chunk_result(
            read_all(start, chunks.take(i)),
            chunks[i].0,
            p2,
            chunks[i].1,
        ) is Ok by {
            if i < prev.len() {
                assert(chunks.take(i) =~= prev.take(i));
                assert(chunks[i] == prev[i]);
            } else {
                assert(chunks.take(i) =~= prev);
            }
        }
    }
}

/// Appending a chunk that fits keeps every byte and answers whether it was
/// the last chunk (`p2 == 1`); one that does not fit is refused with
/// `BadLen`, whatever `p2`, and the buffer is left full with the bytes
/// that fitted.
pub proof fn lemma_append_outcome(contents: Seq<u8>, p2: u8, chunk: Seq<u8>)
    ensures
        contents.len() + chunk.len() <= DATA_BUFFER_MAX_SIZE ==> {
            &&& append_result(contents, p2, chunk) == Ok::<bool, StatusWord>(p2 == 1)
            &&& appended(contents, chunk) == contents + chunk
        },
        contents.len() + chunk.len() > DATA_BUFFER_MAX_SIZE ==> {
            &&& append_result(contents, p2, chunk) == Err::<bool, StatusWord>(StatusWord::BadLen)
            &&& appended(contents, chunk).len() == DATA_BUFFER_MAX_SIZE
            &&& appended(contents, chunk) == (contents + chunk).take(DATA_BUFFER_MAX_SIZE as int)
        },
{
}

/// Reading a chunk: the first chunk (`p1 == 0`) starts from an empty
/// buffer and any other from what was gathered. A chunk that fits is
/// appended whole and answers `Ok(p2 == 1)`; one that overflows the
/// buffer answers `BadLen` for every `p1` and `p2`, and leaves the buffer
/// full with the bytes that fitted.
pub proof fn lemma_chunk_outcome(contents: Seq<u8>, p1: u8, p2: u8, chunk: Seq<u8>)
    ensures
        ({
            let start = if p1 == 0 {
                Seq::<u8>::empty()
            } else {
                contents
            };
            &&& start.len() + chunk.len() <= DATA_BUFFER_MAX_SIZE ==> {
                &&& chunk_result(contents, p1, p2, chunk) == Ok::<bool, StatusWord>(p2 == 1)
                &&& after_chunk(contents, p1, chunk) == start + chunk
            }
            &&& start.len() + chunk.len() > DATA_BUFFER_MAX_SIZE ==> {
                &&& chunk_result(contents, p1, p2, chunk) == Err::<bool, StatusWord>(
                    StatusWord::BadLen,
                )
                &&& after_chunk(contents, p1, chunk).len() == DATA_BUFFER_MAX_SIZE
                &&& after_chunk(contents, p1, chunk) == (start + chunk).take(
                    DATA_BUFFER_MAX_SIZE as int,
                )
            }
        }),
{
}

/// The instruction bytes: 2 asks for the public key, 3 signs, 4 shows the
/// menu, 0xfe shows the private key, 0xff exits, and every other byte asks
/// for the public key.
pub proof fn lemma_instruction_bytes(b: u8)
    ensures
        ins_of(2) == Ins::GetPubkey,
        ins_of(3) == Ins::Sign,
        ins_of(4) == Ins::Menu,
        ins_of(0xfe) == Ins::ShowPrivateKey,
        ins_of(0xff) == Ins::Exit,
        b != 3 && b != 4 && b != 0xfe && b != 0xff ==> ins_of(b) == Ins::GetPubkey,
{
}

/// Each instruction is carried out by its own command: the public key,
/// gathering a message to sign, the menu, the private key, leaving.
pub proof fn lemma_command_of_instructions()
    ensures
        command_of(Ins::GetPubkey) == Command::SendPublicKey,
        command_of(Ins::Sign) == Command::ReadSignChunk,
        command_of(Ins::Menu) == Command::ShowMenu,
        command_of(Ins::ShowPrivateKey) == Command::SendPrivateKey,
        command_of(Ins::Exit) == Command::ExitApp,
{
}

/// The menu: the main page's items are "PubKey", "Infos", "Back" and
/// "Exit App"; the information page's are "Copyright", "Authors" and
/// "Back". Only "Back" and "Exit App" on the main page leave the menu;
/// only "Exit App" leaves the application; "Infos" opens the information
/// page, whose "Back" returns to the main page; any other choice changes
/// nothing.
pub proof fn lemma_menu(page: MenuPage, choice: usize)
    ensures
        menu_step_spec(page, choice).0 is None <==> (page == MenuPage::Main && (choice == 2
            || choice == 3)),
        menu_step_spec(page, choice).1 == MenuAction::ExitApp <==> (page == MenuPage::Main
            && choice == 3),
        menu_step_spec(page, choice).1 == MenuAction::ShowPubkey <==> (page == MenuPage::Main
            && choice == 0),
        menu_step_spec(page, choice).1 == MenuAction::ShowCopyright <==> (page
            == MenuPage::Infos && choice == 0),
        menu_step_spec(page, choice).1 == MenuAction::ShowAuthors <==> (page == MenuPage::Infos
            && choice == 1),
        menu_step_spec(page, choice).0 == Some(MenuPage::Infos) <==> ((page == MenuPage::Main
            && choice == 1) || (page == MenuPage::Infos && (choice == 0 || choice == 1))),
        page == MenuPage::Main && choice > 3 ==> menu_step_spec(page, choice) == (
        Some(MenuPage::Main), MenuAction::Nothing),
        page == MenuPage::Infos && choice >= 2 ==> menu_step_spec(page, choice) == (
        Some(MenuPage::Main), MenuAction::Nothing),
{
}

/// The buffer in which the chunks of a message to sign are gathered.
pub struct DataBuffer {
    data: [u8; DATA_BUFFER_MAX_SIZE],
    len: usize,
}

impl DataBuffer {
    #[verifier::type_invariant]
    spec fn wf(self) -> bool {
        self.len <= DATA_BUFFER_MAX_SIZE
    }

    /// Number of bytes gathered (never more than the capacity).
    spec fn kept(&self) -> int {
        if self.len <= DATA_BUFFER_MAX_SIZE {
            self.len as int
        } else {
            DATA_BUFFER_MAX_SIZE as int
        }
    }

    /// The bytes gathered so far.
    pub closed spec fn contents(&self) -> Seq<u8> {
        self.data@.take(self.kept())
    }

    /// The whole storage, gathered bytes first.
    pub closed spec fn storage(&self) -> Seq<u8> {
        self.data@
    }

    /// Every buffer has storage of the full capacity, which begins with the
    /// bytes gathered, so those are never more than the capacity.
    pub proof fn lemma_storage_holds_contents(&self)
        ensures
            self.storage().len() == DATA_BUFFER_MAX_SIZE,
            self.contents().len() <= DATA_BUFFER_MAX_SIZE,
            self.storage().take(self.contents().len() as int) == self.contents(),
    {
    }

    /// An empty buffer, its storage all zero.
    pub fn new() -> (b: Self)
        ensures
            b.contents() == Seq::<u8>::empty(),
            b.storage() == Seq::new(DATA_BUFFER_MAX_SIZE as nat, |_i: int| 0u8),
            b.storage().len() == DATA_BUFFER_MAX_SIZE,
            b.storage().take(b.contents().len() as int) == b.contents(),
    {
        let b = DataBuffer { data: [0u8; DATA_BUFFER_MAX_SIZE], len: 0 };
        assert(b.data@.take(0) =~= Seq::<u8>::empty());
        assert(b.data@ =~= Seq::new(DATA_BUFFER_MAX_SIZE as nat, |_i: int| 0u8));
        b
    }

    /// Zeroes the storage and forgets what was gathered.
    pub fn clear(&mut self)
        ensures
            final(self).contents() == Seq::<u8>::empty(),
            final(self).storage() == Seq::new(DATA_BUFFER_MAX_SIZE as nat, |_i: int| 0u8),
            final(self).storage().len() == DATA_BUFFER_MAX_SIZE,
            final(self).storage().take(final(self).contents().len() as int)
                == final(self).contents(),
    {
        proof {
            use_type_invariant(&*self);
        }
        let mut i: usize = 0;
        while i < DATA_BUFFER_MAX_SIZE
            invariant
                i <= DATA_BUFFER_MAX_SIZE,
                self.len <= DATA_BUFFER_MAX_SIZE,
                forall|j: int| 0 <= j < i ==> self.data@[j] == 0u8,
            decreases DATA_BUFFER_MAX_SIZE - i,
        {
            self.data[i] = 0;
            i += 1;
        }
        self.len = 0;
        assert(self.data@.take(0) =~= Seq::<u8>::empty());
        assert(self.data@ =~= Seq::new(DATA_BUFFER_MAX_SIZE as nat, |_i: int| 0u8));
    }

    /// The bytes gathered so far.
    pub fn contents_slice(&self) -> (s: &[u8])
        ensures
            s@ == self.contents(),
            s@.len() <= DATA_BUFFER_MAX_SIZE,
    {
        proof {
            use_type_invariant(self);
        }
        let all = self.data.as_slice();
        let s = vstd::slice::slice_subrange(all, 0, self.len);
        assert(s@ =~= self.data@.take(self.len as int));
        s
    }

    /// Starts a chunk numbered `p1`: the first one (`p1 == 0`) clears the
    /// buffer, any other leaves it as it is.
    pub fn start_chunk(&mut self, p1: u8)
        ensures
            final(self).contents() == before_chunk(old(self).contents(), p1),
            final(self).storage() == storage_before_chunk(old(self).storage(), p1),
            final(self).storage().len() == DATA_BUFFER_MAX_SIZE,
            final(self).storage().take(final(self).contents().len() as int)
                == final(self).contents(),
    {
        if p1 == 0 {
            self.clear();
        }
    }

    /// Appends the bytes of a chunk. Answers whether it was the last one
    /// (`p2 == 1`), or `BadLen` when it overflows the buffer, which then
    /// holds the bytes that fitted. The storage past them is left as it was.
    pub fn append_chunk(&mut self, p2: u8, chunk: &[u8]) -> (res: Result<bool, StatusWord>)
        ensures
            final(self).contents() == appended(old(self).contents(), chunk@),
            res == append_result(old(self).contents(), p2, chunk@),
            final(self).storage().len() == DATA_BUFFER_MAX_SIZE,
            final(self).storage().take(final(self).contents().len() as int)
                == final(self).contents(),
            final(self).storage().subrange(
                final(self).contents().len() as int,
                DATA_BUFFER_MAX_SIZE as int,
            ) == old(self).storage().subrange(
                final(self).contents().len() as int,
                DATA_BUFFER_MAX_SIZE as int,
            ),
    {
        proof {
            use_type_invariant(&*self);
        }
        let ghost base = self.contents();
        let ghost base_storage = self.data@;
        let mut k: usize = 0;
        while k < chunk.len()
            invariant
                k <= chunk@.len(),
                self.len == base.len() + k,
                self.len <= DATA_BUFFER_MAX_SIZE,
                base.len() <= DATA_BUFFER_MAX_SIZE,
                base == old(self).contents(),
                base_storage == old(self).storage(),
                self.contents() == base + chunk@.take(k as int),
                self.data@.subrange(self.len as int, DATA_BUFFER_MAX_SIZE as int)
                    == base_storage.subrange(self.len as int, DATA_BUFFER_MAX_SIZE as int),
            decreases chunk@.len() - k,
        {
            if self.len == DATA_BUFFER_MAX_SIZE {
                assert((base + chunk@).len() > DATA_BUFFER_MAX_SIZE);
                assert((base + chunk@).take(DATA_BUFFER_MAX_SIZE as int) =~= base + chunk@.take(
                    k as int,
                ));
                return Err(StatusWord::BadLen);
            }
            let ghost before = self.data@;
            let x = chunk[k];
            let l = self.len;
            self.data[l] = x;
            self.len = l + 1;
            assert(self.contents() =~= base + chunk@.take(k + 1)) by {
                assert(self.data@ == before.update(l as int, x));
                assert(self.data@.take((l + 1) as int) =~= before.take(l as int).push(x));
                assert(chunk@.take(k + 1) =~= chunk@.take(k as int).push(x));
            }
            assert(self.data@.subrange(self.len as int, DATA_BUFFER_MAX_SIZE as int)
                =~= base_storage.subrange(self.len as int, DATA_BUFFER_MAX_SIZE as int)) by {
                assert(self.data@ == before.update(l as int, x));
                assert forall|j: int| l + 1 <= j < DATA_BUFFER_MAX_SIZE implies self.data@[j]
                    == before[j] by {}
                assert forall|j: int| l + 1 <= j < DATA_BUFFER_MAX_SIZE implies before[j]
                    == base_storage[j] by {
                    assert(before.subrange(l as int, DATA_BUFFER_MAX_SIZE as int)[j - l]
                        == before[j]);
                    assert(base_storage.subrange(l as int, DATA_BUFFER_MAX_SIZE as int)[j - l]
                        == base_storage[j]);
                }
            }
            k += 1;
        }
        assert(chunk@.take(k as int) =~= chunk@);
        Ok(p2 == 1)
    }

    /// Reads one chunk of a message to sign. `p1` numbers the chunks from
    /// 0, and the first one clears the buffer; `p2` is 1 on the last chunk.
    /// Answers whether the message is complete, or `BadLen` when the chunk
    /// overflows the buffer, which then holds the bytes that fitted.
    pub fn read_chunk(&mut self, p1: u8, p2: u8, chunk: &[u8]) -> (res: Result<bool, StatusWord>)
        ensures
            final(self).contents() == after_chunk(old(self).contents(), p1, chunk@),
            res == chunk_result(old(self).contents(), p1, p2, chunk@),
            final(self).storage().len() == DATA_BUFFER_MAX_SIZE,
            final(self).storage().take(final(self).contents().len() as int)
                == final(self).contents(),
            final(self).storage().subrange(
                final(self).contents().len() as int,
                DATA_BUFFER_MAX_SIZE as int,
            ) == storage_before_chunk(old(self).storage(), p1).subrange(
                final(self).contents().len() as int,
                DATA_BUFFER_MAX_SIZE as int,
            ),
    {
        self.start_chunk(p1);
        self.append_chunk(p2, chunk)
    }
}

} // verus!
