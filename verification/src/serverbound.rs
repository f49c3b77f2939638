//! Serverbound packets of the status, configuration and play phases: their
//! wire layouts, decoders, and the laws that decoding a written packet gives
//! it back.

pub mod config;
pub mod login;
pub mod play;
pub mod status;

use vstd::prelude::*;
use vstd::utf8::*;
use crate::codec::{
    ByteReader, ReadingError, VarInt, bool_byte, i8_byte, lemma_take_bool, lemma_take_i8,
    lemma_take_string, lemma_take_u8, lemma_take_var_int, string_bytes, take_bool, take_i8,
    take_string, take_u8, take_var_int, var_int_bytes,
};

verus! {

/// The client settings sent both while configuring and while playing.
pub struct ClientInformationFields {
    pub locale: Seq<char>,
    pub view_distance: i8,
    pub chat_mode: i32,
    pub chat_colors: bool,
    pub skin_parts: u8,
    pub main_hand: i32,
    pub text_filtering: bool,
    pub server_listing: bool,
}

/// Client settings off the front of `s`: locale string, view distance
/// byte, chat mode VarInt, chat colours flag, skin parts byte, main hand
/// VarInt, text filtering flag, server listing flag.
pub open spec fn parse_client_information(s: Seq<u8>) -> Result<
    (ClientInformationFields, Seq<u8>),
    ReadingError,
> {
    match take_string(s) {
        Err(e) => Err(e),
        Ok((locale, s1)) => match take_i8(s1) {
            Err(e) => Err(e),
            Ok((view_distance, s2)) => match take_var_int(s2) {
                Err(e) => Err(e),
                Ok((chat_mode, s3)) => match take_bool(s3) {
                    Err(e) => Err(e),
                    Ok((chat_colors, s4)) => match take_u8(s4) {
                        Err(e) => Err(e),
                        Ok((skin_parts, s5)) => match take_var_int(s5) {
                            Err(e) => Err(e),
                            Ok((main_hand, s6)) => match take_bool(s6) {
                                Err(e) => Err(e),
                                Ok((text_filtering, s7)) => match take_bool(s7) {
                                    Err(e) => Err(e),
                                    Ok((server_listing, s8)) => Ok(
                                        (
                                            ClientInformationFields {
                                                locale,
                                                view_distance,
                                                chat_mode,
                                                chat_colors,
                                                skin_parts,
                                                main_hand,
                                                text_filtering,
                                                server_listing,
                                            },
                                            s8,
                                        ),
                                    ),
                                },
                            },
                        },
                    },
                },
            },
        },
    }
}

/// The bytes of client settings.
pub open spec fn client_information_bytes(f: ClientInformationFields) -> Seq<u8> {
    string_bytes(f.locale) + (seq![i8_byte(f.view_distance)] + (var_int_bytes(f.chat_mode) + (seq![
        bool_byte(f.chat_colors),
    ] + (seq![f.skin_parts] + (var_int_bytes(f.main_hand) + (seq![bool_byte(f.text_filtering)]
        + seq![bool_byte(f.server_listing)]))))))
}

proof fn lemma_assoc(a: Seq<u8>, b: Seq<u8>, c: Seq<u8>)
    ensures
        (a + b) + c == a + (b + c),
{
    assert((a + b) + c =~= a + (b + c));
}

/// Decoding written client settings, whatever follows them, gives them
/// back, for every locale whose encoding fits a VarInt length.
pub proof fn lemma_client_information_roundtrip(f: ClientInformationFields, rest: Seq<u8>)
    requires
        encode_utf8(f.locale).len() <= i32::MAX,
    ensures
        parse_client_information(client_information_bytes(f) + rest) == Ok::<
            (ClientInformationFields, Seq<u8>),
            ReadingError,
        >((f, rest)),
{
    let a8 = seq![bool_byte(f.server_listing)];
    let a7 = seq![bool_byte(f.text_filtering)];
    let a6 = var_int_bytes(f.main_hand);
    let a5 = seq![f.skin_parts];
    let a4 = seq![bool_byte(f.chat_colors)];
    let a3 = var_int_bytes(f.chat_mode);
    let a2 = seq![i8_byte(f.view_distance)];
    let a1 = string_bytes(f.locale);
    let b7 = a7 + a8;
    let b6 = a6 + b7;
    let b5 = a5 + b6;
    let b4 = a4 + b5;
    let b3 = a3 + b4;
    let b2 = a2 + b3;
    let b1 = a1 + b2;
    lemma_assoc(a1, b2, rest);
    lemma_assoc(a2, b3, rest);
    lemma_assoc(a3, b4, rest);
    lemma_assoc(a4, b5, rest);
    lemma_assoc(a5, b6, rest);
    lemma_assoc(a6, b7, rest);
    lemma_assoc(a7, a8, rest);
    lemma_take_string(f.locale, b2 + rest);
    lemma_take_i8(f.view_distance, b3 + rest);
    lemma_take_var_int(f.chat_mode, b4 + rest);
    lemma_take_bool(f.chat_colors, b5 + rest);
    lemma_take_u8(f.skin_parts, b6 + rest);
    lemma_take_var_int(f.main_hand, b7 + rest);
    lemma_take_bool(f.text_filtering, a8 + rest);
    lemma_take_bool(f.server_listing, rest);
}

/// Decode client settings from the front of `read`: locale, view distance,
/// chat mode, chat colours, skin parts, main hand, text filtering, server
/// listing.
pub(crate) fn read_client_information(read: &mut ByteReader) -> (res: Result<
    (String, i8, VarInt, bool, u8, VarInt, bool, bool),
    ReadingError,
>)
    ensures
        final(read).data() == old(read).data(),
        match parse_client_information(old(read).rest()) {
            Ok((f, rest)) => res matches Ok(t) && t.0@ == f.locale && t.1 == f.view_distance
                && t.2 == VarInt(f.chat_mode) && t.3 == f.chat_colors && t.4 == f.skin_parts
                && t.5 == VarInt(f.main_hand) && t.6 == f.text_filtering && t.7
                == f.server_listing && final(read).rest() == rest,
            Err(e) => res matches Err(r) && r == e,
        },
{
    let locale = match read.get_str() {
        Ok(v) => v,
        Err(e) => {
            return Err(e);
        },
    };
    let view_distance = match read.get_i8() {
        Ok(v) => v,
        Err(e) => {
            return Err(e);
        },
    };
    let chat_mode = match read.get_var_int() {
        Ok(v) => v,
        Err(e) => {
            return Err(e);
        },
    };
    let chat_colors = match read.get_bool() {
        Ok(v) => v,
        Err(e) => {
            return Err(e);
        },
    };
    let skin_parts = match read.get_u8() {
        Ok(v) => v,
        Err(e) => {
            return Err(e);
        },
    };
    let main_hand = match read.get_var_int() {
        Ok(v) => v,
        Err(e) => {
            return Err(e);
        },
    };
    let text_filtering = match read.get_bool() {
        Ok(v) => v,
        Err(e) => {
            return Err(e);
        },
    };
    let server_listing = match read.get_bool() {
        Ok(v) => v,
        Err(e) => {
            return Err(e);
        },
    };
    Ok(
        (
            locale,
            view_distance,
            chat_mode,
            chat_colors,
            skin_parts,
            main_hand,
            text_filtering,
            server_listing,
        ),
    )
}

} // verus!
