use vstd::prelude::*;

verus! {

pub type CallId = u64;

pub type DeviceId = u32;

/// Platform independent error conditions.
#[derive(Debug)]
pub enum RingRtcError {
    // Project wide common error codes
    MutexPoisoned(String),
    NullPointer(String, String),
    OptionValueNotSet(String, String),
    RegisterActor,
    // Call Manager error codes
    CallAlreadyInProgress(CallId),
    CallManagerIsBusy,
    NoActiveCall,
    CallIdNotFound(CallId),
    ConnectionNotFound(DeviceId),
    ActiveDeviceIdAlreadySet(DeviceId),
    ActiveMediaStreamAlreadySet(DeviceId),
    PendingCallAlreadySet(DeviceId),
    AppConnectionAlreadySet(DeviceId),
    AppCallContextAlreadySet(CallId),
    // WebRTC / C++ error codes
    CreatePeerConnectionObserver,
    CreatePeerConnectionFactory,
    CreatePeerConnection,
    CreateVideoSource,
    CreateVideoTrack,
    CreateAudioTrack,
    QueryAudioDevices,
    SetAudioDevice,
    // WebRTC / C++ session description error codes
    CreateSessionDescriptionObserver(String, i32),
    CreateSessionDescriptionObserverResult(String),
    SetSessionDescriptionObserver(String, i32),
    SetSessionDescriptionObserverResult(String),
    AddIceCandidate,
    // WebRTC / C++ offer / answer error codes
    ToSdp,
    ConvertSdpAnswer,
    ConvertSdpOffer,
    MungeSdp,
    UnknownSignaledProtocolVersion,
    // RTP Data error codes
    RtpDataProtocol(String),
    SendRtp,
    ReceiveRtp,
    // IceGatherer error codes
    UseIceGatherer,
    CreateIceGatherer,
    // SFU client error codes
    UnexpectedResponseCodeFromSFu(u16),
    SfuClientRequestFailed,
    GroupCallFull,
    // Frame encryption error codes
    FrameCounterTooBig,
    FailedToEncrypt,
    FailedToDecrypt,
    // Misc error codes
    SrtpKeyNegotiationFailure,
    BufferTooSmall,
}

} // verus!
